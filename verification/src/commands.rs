//! The decisions behind the desktop's commands: which environment a session boots, how long
//! the guest gets to start, when a lesson is complete, how review questions are graded, and
//! what the progress and reference panels show.
use crate::catalog::{commands_of, lessons_of, uses_command, Catalog};
use crate::console::{clip, clip_text};
use crate::hints::{hints_fit, hints_opened, lesson_mastery, total_hints, AttemptState, HintOutcome};
use crate::lesson::{Lesson, NetworkMode, ReviewQuestion, ReviewQuestionType, Task};
use crate::progress::{LessonProgress, LessonStatus, MasteryStatus};
use crate::sys::{insert_sorted, strictly_sorted};
use crate::progression::ProgressionMode;
use crate::registry::{check_spec, error_message, Registry};
use crate::text::{
    append, copy_optional, lines, lines_of, owned, phrase, phrase2, same_text, strings_view, trim,
    trimmed,
};
use crate::validation::{TaskValidation, ValidationRequest};
use crate::dto::CheckResult;
use crate::feedback::{feedback_spec, shape_feedback, Feedback};
use crate::state::{attempt_key_spec, filed_under, starting_point, AttemptBook};
use crate::vm::AccelMode;
use crate::vm_manager::SessionKind;
use vstd::prelude::*;

verus! {

/// Seconds the guest gets to answer on its first boot: a hardware-accelerated start that
/// stalls is retried in software, so it gets a stricter budget.
pub fn first_boot_budget_secs(accel: AccelMode) -> (r: u64)
    ensures
        r == (if accel == AccelMode::Whpx {
            30u64
        } else {
            120u64
        }),
{
    match accel {
        AccelMode::Whpx => 30,
        _ => 120,
    }
}

/// Seconds the guest gets after falling back to software translation.
pub const SOFTWARE_BOOT_BUDGET_SECS: u64 = 120;

/// A hardware-accelerated boot that did not come up is retried once with software translation.
pub fn retry_with_software(ready: bool, accel: AccelMode) -> (r: bool)
    ensures
        r == (!ready && accel == AccelMode::Whpx),
{
    !ready && match accel {
        AccelMode::Whpx => true,
        _ => false,
    }
}

/// The environment a session boots: a lesson's own network mode and memory, or Free Practice
/// offline with the default memory.
pub fn session_settings(catalog: &Catalog, lesson_id: Option<&str>) -> (r: Result<(SessionKind, NetworkMode, Option<u32>), String>)
    ensures
        match lesson_id {
            None => r == Ok::<(SessionKind, NetworkMode, Option<u32>), String>(
                (SessionKind::FreePractice, NetworkMode::Disabled, None),
            ),
            Some(id) => match catalog.find_lesson(id@) {
                Some(l) => r matches Ok((kind, net, mem)) && kind matches SessionKind::Lesson { lesson_id }
                    && lesson_id@ == id@ && net == l.environment.network_mode && mem == l.environment.memory_mb,
                None => r matches Err(m) && m@ == "no lesson with id "@ + id@,
            },
        },
{
    match lesson_id {
        None => Ok((SessionKind::FreePractice, NetworkMode::Disabled, None)),
        Some(id) => {
            let lesson = catalog.try_lesson(id)?;
            Ok(
                (
                    SessionKind::Lesson { lesson_id: owned(id) },
                    lesson.environment.network_mode,
                    lesson.environment.memory_mb,
                ),
            )
        },
    }
}

/// The last line of the VM log worth showing: trimmed, not blank, not a bare `**` assertion
/// marker, clipped to 500 characters.
pub open spec fn log_line_of(ls: Seq<Seq<char>>) -> Option<Seq<char>>
    decreases ls.len(),
{
    if ls.len() == 0 {
        None
    } else {
        let t = trim(ls.last());
        if t.len() > 0 && t != "**"@ {
            Some(clip(t, 500))
        } else {
            log_line_of(ls.drop_last())
        }
    }
}

/// The line of a VM log that explains why QEMU stopped.
pub fn last_vm_log_line(contents: &str) -> (r: Option<String>)
    ensures
        match log_line_of(lines(contents@)) {
            Some(l) => r matches Some(s) && s@ == l,
            None => r is None,
        },
{
    let ls = lines_of(contents);
    let ghost lv = strings_view(ls@);
    let mut n: usize = ls.len();
    assert(lv.take(n as int) =~= lv);
    while n > 0
        invariant
            n <= ls@.len(),
            lv == strings_view(ls@),
            lv == lines(contents@),
            log_line_of(lv) == log_line_of(lv.take(n as int)),
        decreases n,
    {
        assert(lv.take(n as int).drop_last() =~= lv.take(n - 1));
        assert(lv.take(n as int).last() == ls@[n - 1]@);
        let t = trimmed(ls[n - 1].as_str());
        let tc = crate::text::chars_of(t.as_str());
        if tc.len() > 0 && !same_text(t.as_str(), "**") {
            return Some(clip_text(t.as_str(), 500));
        }
        n -= 1;
    }
    None
}

/// Why a boot failed when QEMU itself exited: its exit status, the VM log's last word, and
/// what to do next.
pub fn exited_message(status: &str, log_line: Option<&str>) -> (r: String)
    ensures
        r@ == "Linux stopped before it finished starting ("@ + status@ + ")."@ + match log_line {
            Some(l) => " The VM log says: "@ + l@,
            None => Seq::empty(),
        } + " Try Check practice environment; if the problem remains, reinstall the runtime."@,
{
    let mut r = phrase("Linux stopped before it finished starting (", status, ").");
    match log_line {
        Some(l) => {
            append(&mut r, " The VM log says: ");
            append(&mut r, l);
        },
        None => {},
    }
    append(&mut r, " Try Check practice environment; if the problem remains, reinstall the runtime.");
    r
}

/// A failed boot's message with the console's summary appended when there is one.
pub fn with_console_summary(detail: &str, console: Option<&str>) -> (r: String)
    ensures
        r@ == detail@ + match console {
            Some(c) => " Linux console: "@ + c@,
            None => Seq::empty(),
        },
{
    let mut r = owned(detail);
    match console {
        Some(c) => {
            append(&mut r, " Linux console: ");
            append(&mut r, c);
        },
        None => {},
    }
    r
}

/// The first task of the lesson with the id.
pub open spec fn task_index(ts: Seq<Task>, id: Seq<char>) -> Option<int>
    decreases ts.len(),
{
    if ts.len() == 0 {
        None
    } else {
        match task_index(ts.drop_last(), id) {
            Some(i) => Some(i),
            None => if ts.last().id@ == id {
                Some(ts.len() - 1)
            } else {
                None
            },
        }
    }
}

proof fn lemma_task_index_prefix(ts: Seq<Task>, id: Seq<char>, n: int)
    requires
        0 <= n <= ts.len(),
        task_index(ts.take(n), id) is Some,
    ensures
        task_index(ts, id) == task_index(ts.take(n), id),
    decreases ts.len() - n,
{
    if n < ts.len() {
        assert(ts.take(n + 1).drop_last() =~= ts.take(n));
        lemma_task_index_prefix(ts, id, n + 1);
    } else {
        assert(ts.take(n) =~= ts);
    }
}

/// The lesson's task with the id, or an error naming both.
pub fn find_task<'a>(lesson: &'a Lesson, task_id: &str) -> (r: Result<&'a Task, String>)
    ensures
        match task_index(lesson.tasks@, task_id@) {
            Some(i) => r == Ok::<&Task, String>(&lesson.tasks@[i]),
            None => r matches Err(m) && m@ == "lesson "@ + lesson.id@ + " has no task "@ + task_id@,
        },
{
    let mut n: usize = 0;
    assert(lesson.tasks@.take(0) =~= Seq::<Task>::empty());
    while n < lesson.tasks.len()
        invariant
            n <= lesson.tasks@.len(),
            task_index(lesson.tasks@.take(n as int), task_id@) is None,
        decreases lesson.tasks.len() - n,
    {
        assert(lesson.tasks@.take(n + 1).drop_last() =~= lesson.tasks@.take(n as int));
        assert(lesson.tasks@.take(n + 1).last() == lesson.tasks@[n as int]);
        if same_text(lesson.tasks[n].id.as_str(), task_id) {
            proof {
                lemma_task_index_prefix(lesson.tasks@, task_id@, n + 1);
            }
            return Ok(&lesson.tasks[n]);
        }
        n += 1;
    }
    assert(lesson.tasks@.take(lesson.tasks@.len() as int) =~= lesson.tasks@);
    proof {
        reveal_strlit("");
    }
    Err(phrase2("lesson ", lesson.id.as_str(), " has no task ", task_id, ""))
}

/// The first validator of the task the registry objects to.
pub open spec fn first_invalid(vs: Seq<crate::lesson::Validator>, reg: Registry) -> Option<int>
    decreases vs.len(),
{
    if vs.len() == 0 {
        None
    } else {
        match first_invalid(vs.drop_last(), reg) {
            Some(i) => Some(i),
            None => if check_spec(reg, vs.last()) is Some {
                Some(vs.len() - 1)
            } else {
                None
            },
        }
    }
}

/// Checks every validator of a task against the registry before it is sent to the guest: a
/// lesson package is untrusted input, so this runs on every attempt as well as on load.
pub fn check_task_validators(task: &Task, registry: &Registry) -> (r: Result<(), String>)
    ensures
        match first_invalid(task.validators@, *registry) {
            None => r is Ok,
            Some(i) => r matches Err(m) && m@ == "task "@ + task.id@ + " has an invalid validator: "@
                + error_message(check_spec(*registry, task.validators@[i]).unwrap()),
        },
{
    let ghost vs = task.validators@;
    let mut n: usize = 0;
    assert(vs.take(0) =~= Seq::<crate::lesson::Validator>::empty());
    while n < task.validators.len()
        invariant
            n <= vs.len(),
            vs == task.validators@,
            first_invalid(vs.take(n as int), *registry) is None,
        decreases task.validators.len() - n,
    {
        assert(vs.take(n + 1).drop_last() =~= vs.take(n as int));
        assert(vs.take(n + 1).last() == vs[n as int]);
        match registry.check(&task.validators[n]) {
            Ok(()) => {},
            Err(e) => {
                proof {
                    lemma_first_invalid_prefix(vs, *registry, n + 1);
                }
                let message = e.message();
                proof {
                    reveal_strlit("");
                }
                return Err(phrase2("task ", task.id.as_str(), " has an invalid validator: ", message.as_str(), ""));
            },
        }
        n += 1;
    }
    assert(vs.take(vs.len() as int) =~= vs);
    Ok(())
}

proof fn lemma_first_invalid_prefix(vs: Seq<crate::lesson::Validator>, reg: Registry, n: int)
    requires
        0 <= n <= vs.len(),
        first_invalid(vs.take(n), reg) is Some,
    ensures
        first_invalid(vs, reg) == first_invalid(vs.take(n), reg),
    decreases vs.len() - n,
{
    if n < vs.len() {
        assert(vs.take(n + 1).drop_last() =~= vs.take(n));
        lemma_first_invalid_prefix(vs, reg, n + 1);
    } else {
        assert(vs.take(n) =~= vs);
    }
}

/// The request that checks one task in the guest: the task's validators, run against the
/// learner's account, from the lesson's directory, scoped to the attempt.
pub fn build_validation_request(lesson: &Lesson, task: &Task, attempt_started_at: i64) -> (r: ValidationRequest)
    ensures
        r.lesson_id == lesson.id,
        r.task_id == task.id,
        r.validators@.len() == task.validators@.len(),
        forall|i: int| 0 <= i < r.validators@.len() ==> (#[trigger] r.validators@[i]).same_as(task.validators@[i]),
        r.subject_user@ == "student"@,
        r.lesson_root matches Some(root) && root@ == "/opt/linuxlab/lessons/"@ + lesson.id@,
        r.attempt_started_at == Some(attempt_started_at),
{
    let mut validators: Vec<crate::lesson::Validator> = Vec::new();
    let mut n: usize = 0;
    while n < task.validators.len()
        invariant
            n <= task.validators@.len(),
            validators@.len() == n,
            forall|i: int| 0 <= i < n ==> (#[trigger] validators@[i]).same_as(task.validators@[i]),
        decreases task.validators.len() - n,
    {
        validators.push(task.validators[n].duplicate());
        n += 1;
    }
    proof {
        reveal_strlit("");
    }
    ValidationRequest {
        lesson_id: lesson.id.clone(),
        task_id: task.id.clone(),
        validators,
        subject_user: owned("student"),
        lesson_root: Some(phrase("/opt/linuxlab/lessons/", lesson.id.as_str(), "")),
        attempt_started_at: Some(attempt_started_at),
    }
}


/// The ids of the lesson's required tasks, in order.
pub open spec fn required_ids(lesson: Lesson) -> Seq<Seq<char>> {
    crate::lesson::required_of(lesson.tasks@).map_values(|t: Task| t.id@)
}

/// Whether some attempt at the task passed.
pub open spec fn task_passed(attempts: Seq<AttemptState>, id: Seq<char>) -> bool {
    exists|i: int| 0 <= i < attempts.len() && (#[trigger] attempts[i]).task_id@ == id && attempts[i].passed
}

/// A lesson is complete once it has required tasks and each of them has passed.
pub open spec fn lesson_complete(lesson: Lesson, attempts: Seq<AttemptState>) -> bool {
    required_ids(lesson).len() > 0 && forall|k: int|
        0 <= k < required_ids(lesson).len() ==> task_passed(attempts, #[trigger] required_ids(lesson)[k])
}

/// What a completed lesson is recorded with.
#[derive(Debug, Clone, Copy, PartialEq, Eq)]
pub struct Completion {
    pub mastery: MasteryStatus,
    pub total_hints: u32,
    pub solution_revealed: bool,
}

fn task_passed_exec(attempts: &[AttemptState], id: &str) -> (r: bool)
    ensures
        r == task_passed(attempts@, id@),
{
    let mut i: usize = 0;
    while i < attempts.len()
        invariant
            i <= attempts@.len(),
            forall|j: int| 0 <= j < i ==> !((#[trigger] attempts@[j]).task_id@ == id@ && attempts@[j].passed),
        decreases attempts.len() - i,
    {
        if attempts[i].passed && same_text(attempts[i].task_id.as_str(), id) {
            return true;
        }
        i += 1;
    }
    false
}

/// After a passing check: whether the lesson is now complete, and if so with what mastery
/// (its weakest task), how many hints were opened and whether a solution was shown.
pub fn completion(lesson: &Lesson, attempts: &[AttemptState]) -> (r: Option<Completion>)
    requires
        hints_opened(attempts@) <= u32::MAX,
    ensures
        r is Some <==> lesson_complete(*lesson, attempts@),
        r matches Some(c) ==> {
            &&& c.total_hints == hints_opened(attempts@)
            &&& c.solution_revealed == exists|i: int| 0 <= i < attempts@.len() && (#[trigger] attempts@[i]).solution_revealed
            &&& forall|i: int| 0 <= i < attempts@.len() ==> c.mastery.rank() <= (#[trigger] attempts@[i]).mastery_spec(lesson.lesson_type.hides_hints_spec()).rank()
            &&& exists|i: int| 0 <= i < attempts@.len() && c.mastery == (#[trigger] attempts@[i]).mastery_spec(lesson.lesson_type.hides_hints_spec())
        },
{
    let required = lesson.required_tasks();
    let ghost ids = required_ids(*lesson);
    assert(ids.len() == required@.len());
    let mut n: usize = 0;
    while n < required.len()
        invariant
            n <= required@.len(),
            ids == required_ids(*lesson),
            required@.map_values(|t: &Task| *t) == crate::lesson::required_of(lesson.tasks@),
            forall|k: int| 0 <= k < n ==> task_passed(attempts@, #[trigger] ids[k]),
        decreases required.len() - n,
    {
        assert(ids[n as int] == required@[n as int].id@);
        if !task_passed_exec(attempts, required[n].id.as_str()) {
            return None;
        }
        n += 1;
    }
    if required.len() == 0 {
        return None;
    }
    assert(task_passed(attempts@, ids[0]));
    assert(attempts@.len() > 0);
    let is_assessment = lesson.lesson_type.hides_hints();
    let mastery = lesson_mastery(attempts, is_assessment);
    let hints = total_hints(attempts);
    let mut revealed = false;
    let mut i: usize = 0;
    while i < attempts.len()
        invariant
            i <= attempts@.len(),
            revealed == exists|j: int| 0 <= j < i && (#[trigger] attempts@[j]).solution_revealed,
        decreases attempts.len() - i,
    {
        if attempts[i].solution_revealed {
            revealed = true;
        }
        i += 1;
    }
    Some(Completion { mastery, total_hints: hints, solution_revealed: revealed })
}

/// The first choice given, for a multiple-choice question.
pub open spec fn first_choice(selected: Option<Seq<usize>>) -> Option<usize> {
    match selected {
        Some(s) => if s.len() > 0 {
            Some(s[0])
        } else {
            None
        },
        None => None,
    }
}

/// Whether an answer to a review question is right: the one correct option; exactly the set
/// of correct options, each named once in the key; or an accepted free-text answer.
pub open spec fn answer_correct(q: ReviewQuestion, selected: Option<Seq<usize>>, text: Seq<char>) -> bool {
    match q.question_type {
        ReviewQuestionType::MultipleChoice => first_choice(selected) == q.correct_answer,
        ReviewQuestionType::MultipleSelect => {
            let given = match selected {
                Some(s) => s,
                None => Seq::empty(),
            };
            given.to_set() == q.correct_answers@.to_set() && q.correct_answers@.no_duplicates()
        },
        _ => exists|i: int|
            0 <= i < q.accepted_answers@.len() && crate::lesson::normalised_answer(
                #[trigger] q.accepted_answers@[i]@,
            ) == crate::lesson::normalised_answer(text),
    }
}

fn contains_usize(v: &Vec<usize>, x: usize) -> (r: bool)
    ensures
        r == v@.contains(x),
{
    let mut i: usize = 0;
    while i < v.len()
        invariant
            i <= v@.len(),
            forall|j: int| 0 <= j < i ==> v@[j] != x,
        decreases v.len() - i,
    {
        if v[i] == x {
            return true;
        }
        i += 1;
    }
    false
}

/// Whether every element of `a` occurs in `b`.
fn all_in(a: &Vec<usize>, b: &Vec<usize>) -> (r: bool)
    ensures
        r == forall|i: int| 0 <= i < a@.len() ==> b@.contains(#[trigger] a@[i]),
{
    let mut i: usize = 0;
    while i < a.len()
        invariant
            i <= a@.len(),
            forall|j: int| 0 <= j < i ==> b@.contains(#[trigger] a@[j]),
        decreases a.len() - i,
    {
        if !contains_usize(b, a[i]) {
            return false;
        }
        i += 1;
    }
    true
}

fn no_repeats(v: &Vec<usize>) -> (r: bool)
    ensures
        r == v@.no_duplicates(),
{
    let mut i: usize = 0;
    while i < v.len()
        invariant
            i <= v@.len(),
            forall|a: int, b: int| 0 <= a < b < i ==> v@[a] != v@[b],
        decreases v.len() - i,
    {
        let mut j: usize = 0;
        while j < i
            invariant
                j <= i < v@.len(),
                forall|a: int, b: int| 0 <= a < b < i ==> v@[a] != v@[b],
                forall|a: int| 0 <= a < j ==> v@[a] != v@[i as int],
            decreases i - j,
        {
            if v[j] == v[i] {
                return false;
            }
            j += 1;
        }
        i += 1;
    }
    true
}

/// Grades an answer to a review question. The explanation is returned either way: it is
/// teaching, not the answer key.
pub fn grade_review_question(question: &ReviewQuestion, selected: Option<Vec<usize>>, text: Option<&str>) -> (r: crate::dto::ReviewGrade)
    ensures
        r.correct == answer_correct(
            *question,
            match selected {
                Some(v) => Some(v@),
                None => None,
            },
            match text {
                Some(t) => t@,
                None => Seq::empty(),
            },
        ),
        r.explanation == question.explanation,
{
    let correct = match question.question_type {
        ReviewQuestionType::MultipleChoice => {
            let first = match &selected {
                Some(v) => if v.len() > 0 {
                    Some(v[0])
                } else {
                    None
                },
                None => None,
            };
            first == question.correct_answer
        },
        ReviewQuestionType::MultipleSelect => {
            let given = match selected {
                Some(v) => v,
                None => Vec::new(),
            };
            let expected = &question.correct_answers;
            let ok = no_repeats(expected) && all_in(&given, expected) && all_in(expected, &given);
            proof {
                let g = given@;
                let e = expected@;
                if (forall|i: int| 0 <= i < g.len() ==> e.contains(#[trigger] g[i])) && (forall|i: int|
                    0 <= i < e.len() ==> g.contains(#[trigger] e[i])) {
                    assert(g.to_set() =~= e.to_set());
                }
                if g.to_set() == e.to_set() {
                    assert forall|i: int| 0 <= i < g.len() implies e.contains(#[trigger] g[i]) by {
                        assert(g.to_set().contains(g[i]));
                    }
                    assert forall|i: int| 0 <= i < e.len() implies g.contains(#[trigger] e[i]) by {
                        assert(e.to_set().contains(e[i]));
                    }
                }
            }
            ok
        },
        _ => {
            let t = match text {
                Some(t) => t,
                None => "",
            };
            proof {
                reveal_strlit("");
            }
            question.accepts_text(t)
        },
    };
    crate::dto::ReviewGrade { correct, explanation: copy_optional(&question.explanation) }
}


/// Hints and worked solutions are offered unless the lesson is an assessment or the learner is
/// in Assessment Mode.
pub fn hints_allowed(lesson: &Lesson, mode: ProgressionMode) -> (r: bool)
    ensures
        r == crate::dto::hints_shown(*lesson, mode),
{
    !lesson.lesson_type.hides_hints() && mode != ProgressionMode::Assessment
}

/// What the frontend is told after asking for a hint.
#[derive(Debug, Clone, PartialEq, Eq)]
pub enum HintResponse {
    Hint { index: usize, text: String, remaining: usize, solution_next: bool },
    SolutionAvailable,
    Unavailable { reason: String },
}

impl HintResponse {
    /// The response for the outcome of a hint request.
    pub fn from_outcome(outcome: HintOutcome) -> (r: HintResponse)
        ensures
            match outcome {
                HintOutcome::Hint(h) => r == HintResponse::Hint {
                    index: h.index,
                    text: h.text,
                    remaining: h.remaining,
                    solution_next: h.solution_next,
                },
                HintOutcome::SolutionAvailable => r == HintResponse::SolutionAvailable,
                HintOutcome::Unavailable(reason) => r matches HintResponse::Unavailable { reason: t } && t@ == reason@,
            },
    {
        match outcome {
            HintOutcome::Hint(h) => HintResponse::Hint {
                index: h.index,
                text: h.text,
                remaining: h.remaining,
                solution_next: h.solution_next,
            },
            HintOutcome::SolutionAvailable => HintResponse::SolutionAvailable,
            HintOutcome::Unavailable(reason) => HintResponse::Unavailable { reason: owned(reason) },
        }
    }
}

/// What the frontend is told after asking for the worked solution.
#[derive(Debug, Clone, PartialEq, Eq)]
pub struct SolutionResponse {
    pub solution: Option<String>,
    pub reason: Option<String>,
}

impl SolutionResponse {
    /// The task's suggested solution, or why it is withheld. The learner still has to type it:
    /// it is text on screen, never sent to the shell.
    pub fn for_task(refusal: Option<&str>, task: &Task) -> (r: SolutionResponse)
        ensures
            match refusal {
                Some(why) => r.solution is None && (r.reason matches Some(t) && t@ == why@),
                None => r.solution == task.suggested_solution && r.reason is None,
            },
    {
        match refusal {
            Some(why) => SolutionResponse { solution: None, reason: Some(owned(why)) },
            None => SolutionResponse { solution: copy_optional(&task.suggested_solution), reason: None },
        }
    }
}

/// A command as it is kept in the history: trimmed, and nothing at all when blank.
pub fn command_to_record(command: &str) -> (r: Option<String>)
    ensures
        trim(command@).len() == 0 ==> r is None,
        trim(command@).len() > 0 ==> (r matches Some(t) && t@ == trim(command@)),
{
    let t = trimmed(command);
    let tc = crate::text::chars_of(t.as_str());
    if tc.len() == 0 {
        None
    } else {
        Some(t)
    }
}

/// Practice time is added in steps of at most an hour and never subtracted.
pub fn practice_increment(seconds: i64) -> (r: i64)
    ensures
        r == (if seconds < 0 {
            0
        } else if seconds > 3600 {
            3600
        } else {
            seconds
        }),
{
    if seconds < 0 {
        0
    } else if seconds > 3600 {
        3600
    } else {
        seconds
    }
}

/// Reducing history retention takes effect at once, so changing that setting prunes.
pub fn setting_prunes_history(key: &str) -> (r: bool)
    ensures
        r == (key@ == "history.retention"@),
{
    same_text(key, "history.retention")
}

/// The stored name of a progression mode.
pub open spec fn mode_text(mode: ProgressionMode) -> Seq<char> {
    match mode {
        ProgressionMode::GuidedPath => "guided-path"@,
        ProgressionMode::OpenLibrary => "open-library"@,
        ProgressionMode::Assessment => "assessment"@,
    }
}

pub fn mode_setting(mode: ProgressionMode) -> (r: &'static str)
    ensures
        r@ == mode_text(mode),
{
    match mode {
        ProgressionMode::GuidedPath => "guided-path",
        ProgressionMode::OpenLibrary => "open-library",
        ProgressionMode::Assessment => "assessment",
    }
}

/// The progression mode a stored setting names, if it names one.
pub fn parse_mode_setting(value: &str) -> (r: Option<ProgressionMode>)
    ensures
        r matches Some(m) ==> mode_text(m) == value@,
        r is None ==> forall|m: ProgressionMode| mode_text(m) != value@,
{
    if same_text(value, "guided-path") {
        Some(ProgressionMode::GuidedPath)
    } else if same_text(value, "open-library") {
        Some(ProgressionMode::OpenLibrary)
    } else if same_text(value, "assessment") {
        Some(ProgressionMode::Assessment)
    } else {
        None
    }
}

/// A stored mode name reads back as the mode it was written from.
pub proof fn lemma_mode_setting_roundtrip(mode: ProgressionMode)
    ensures
        forall|m: ProgressionMode| mode_text(m) == mode_text(mode) ==> m == mode,
{
    reveal_strlit("guided-path");
    reveal_strlit("open-library");
    reveal_strlit("assessment");
    assert("guided-path"@ != "open-library"@ && "guided-path"@ != "assessment"@ && "open-library"@ != "assessment"@) by {
        assert("guided-path"@[0] != "open-library"@[0]);
        assert("guided-path"@[0] != "assessment"@[0]);
        assert("open-library"@[0] != "assessment"@[0]);
    }
}


/// One command in the Command Reference, with the core lessons that exercise it as id and
/// title.
#[derive(Debug, Clone, PartialEq, Eq)]
pub struct CommandEntry {
    pub command: String,
    pub lessons: Vec<(String, String)>,
}

/// The Command Reference: every command the curriculum touches, ascending, each with the core
/// lessons, in teaching order, that exercise it.
pub fn command_reference(catalog: &Catalog) -> (r: Vec<CommandEntry>)
    ensures
        strictly_sorted(r@.map_values(|e: CommandEntry| e.command@)),
        r@.map_values(|e: CommandEntry| e.command@).to_set() == commands_of(catalog.lesson_list()),
        forall|i: int|
            0 <= i < r@.len() ==> (#[trigger] r@[i]).lessons@.map_values(|p: (String, String)| (p.0@, p.1@))
                == lessons_of(catalog.lesson_list(), catalog.core_ids()).filter(
                |l: Lesson| uses_command(l, r@[i].command@),
            ).map_values(|l: Lesson| (l.id@, l.title@)),
{
    let commands = catalog.all_commands();
    let ghost cv = strings_view(commands@);
    let mut out: Vec<CommandEntry> = Vec::new();
    let mut n: usize = 0;
    while n < commands.len()
        invariant
            n <= commands@.len(),
            cv == strings_view(commands@),
            out@.map_values(|e: CommandEntry| e.command@) == cv.take(n as int),
            forall|i: int|
                0 <= i < out@.len() ==> (#[trigger] out@[i]).lessons@.map_values(|p: (String, String)| (p.0@, p.1@))
                    == lessons_of(catalog.lesson_list(), catalog.core_ids()).filter(
                    |l: Lesson| uses_command(l, out@[i].command@),
                ).map_values(|l: Lesson| (l.id@, l.title@)),
        decreases commands.len() - n,
    {
        let command = commands[n].as_str();
        let found = catalog.lessons_for_command(command);
        let ghost fv = found@.map_values(|l: &Lesson| *l);
        let mut pairs: Vec<(String, String)> = Vec::new();
        let mut m: usize = 0;
        while m < found.len()
            invariant
                m <= found@.len(),
                fv == found@.map_values(|l: &Lesson| *l),
                pairs@.map_values(|p: (String, String)| (p.0@, p.1@)) == fv.take(m as int).map_values(
                    |l: Lesson| (l.id@, l.title@),
                ),
            decreases found.len() - m,
        {
            let ghost before = pairs@.map_values(|p: (String, String)| (p.0@, p.1@));
            let l = found[m];
            assert(fv[m as int] == *l);
            let pair = (l.id.clone(), l.title.clone());
            pairs.push(pair);
            assert(pairs@.map_values(|p: (String, String)| (p.0@, p.1@)) =~= before.push((l.id@, l.title@)));
            assert(fv.take(m + 1) =~= fv.take(m as int).push(*l));
            m += 1;
            assert(pairs@.map_values(|p: (String, String)| (p.0@, p.1@)) =~= fv.take(m as int).map_values(
                |l: Lesson| (l.id@, l.title@),
            ));
        }
        assert(fv.take(fv.len() as int) =~= fv);
        let ghost before = out@.map_values(|e: CommandEntry| e.command@);
        let name = commands[n].clone();
        assert(name@ == cv[n as int]);
        let entry = CommandEntry { command: name, lessons: pairs };
        out.push(entry);
        assert(out@.map_values(|e: CommandEntry| e.command@) =~= before.push(cv[n as int]));
        assert(cv.take(n + 1) =~= cv.take(n as int).push(cv[n as int]));
        n += 1;
        assert(out@.map_values(|e: CommandEntry| e.command@) =~= cv.take(n as int));
    }
    assert(cv.take(cv.len() as int) =~= cv);
    out
}

/// The Progress panel.
#[derive(Debug, Clone, PartialEq, Eq)]
pub struct ProgressReport {
    pub lessons_attempted: usize,
    pub lessons_passed: usize,
    pub lessons_mastered: usize,
    pub needs_review: usize,
    pub hints_used: u32,
    pub commands_mastered: Vec<String>,
    pub common_failures: Vec<(String, u32)>,
    pub achievements: Vec<(String, i64)>,
    pub practice_seconds: i64,
}

/// Hints recorded across lesson records.
pub open spec fn hints_total(ls: Seq<LessonProgress>) -> nat
    decreases ls.len(),
{
    if ls.len() == 0 {
        0
    } else {
        hints_total(ls.drop_last()) + ls.last().hints_used as nat
    }
}

/// Whether the record's mastery is good enough that its commands count as mastered.
pub open spec fn well_learned(p: LessonProgress) -> bool {
    p.mastery matches Some(m) && m.rank() > 1
}

/// The commands of the lessons learned well, each once.
pub open spec fn mastered_commands(ls: Seq<LessonProgress>, catalog: Catalog) -> Set<Seq<char>> {
    Set::new(|c: Seq<char>| exists|i: int| 0 <= i < ls.len() && well_learned(#[trigger] ls[i]) && match catalog.find_lesson(ls[i].lesson_id@) {
        Some(l) => uses_command(l, c),
        None => false,
    })
}

/// Summarises the learner's lesson records for the Progress panel.
pub fn progress_report(
    lessons: &Vec<LessonProgress>,
    common_failures: Vec<(String, u32)>,
    achievements: Vec<(String, i64)>,
    practice_seconds: i64,
    catalog: &Catalog,
) -> (r: ProgressReport)
    requires
        hints_total(lessons@) <= u32::MAX,
    ensures
        r.lessons_attempted == lessons@.len(),
        r.lessons_passed == lessons@.filter(|p: LessonProgress| p.status == LessonStatus::Passed || p.status == LessonStatus::NeedsReview).len(),
        r.lessons_mastered == lessons@.filter(|p: LessonProgress| p.mastery == Some(MasteryStatus::Mastered)).len(),
        r.needs_review == lessons@.filter(|p: LessonProgress| p.status == LessonStatus::NeedsReview).len(),
        r.hints_used == hints_total(lessons@),
        strictly_sorted(strings_view(r.commands_mastered@)),
        strings_view(r.commands_mastered@).to_set() == mastered_commands(lessons@, *catalog),
        r.common_failures == common_failures,
        r.achievements == achievements,
        r.practice_seconds == practice_seconds,
{
    let ghost ls = lessons@;
    let ghost passed_f = |p: LessonProgress| p.status == LessonStatus::Passed || p.status == LessonStatus::NeedsReview;
    let ghost mastered_f = |p: LessonProgress| p.mastery == Some(MasteryStatus::Mastered);
    let ghost review_f = |p: LessonProgress| p.status == LessonStatus::NeedsReview;
    let mut passed: usize = 0;
    let mut mastered: usize = 0;
    let mut review: usize = 0;
    let mut hints: u32 = 0;
    let mut commands: Vec<String> = Vec::new();
    let mut n: usize = 0;
    assert(strings_view(commands@).to_set() =~= mastered_commands(ls.take(0), *catalog));
    while n < lessons.len()
        invariant
            n <= ls.len(),
            ls == lessons@,
            passed_f == (|p: LessonProgress| p.status == LessonStatus::Passed || p.status == LessonStatus::NeedsReview),
            mastered_f == (|p: LessonProgress| p.mastery == Some(MasteryStatus::Mastered)),
            review_f == (|p: LessonProgress| p.status == LessonStatus::NeedsReview),
            passed == ls.take(n as int).filter(passed_f).len(),
            mastered == ls.take(n as int).filter(mastered_f).len(),
            review == ls.take(n as int).filter(review_f).len(),
            passed <= n && mastered <= n && review <= n,
            hints == hints_total(ls.take(n as int)),
            hints_total(ls) <= u32::MAX,
            strictly_sorted(strings_view(commands@)),
            strings_view(commands@).to_set() == mastered_commands(ls.take(n as int), *catalog),
        decreases lessons.len() - n,
    {
        let p = &lessons[n];
        assert(ls.take(n + 1).drop_last() =~= ls.take(n as int));
        reveal(Seq::filter);
        proof {
            lemma_hints_total_prefix(ls, n + 1);
        }
        match p.status {
            LessonStatus::Passed => {
                passed += 1;
            },
            LessonStatus::NeedsReview => {
                passed += 1;
                review += 1;
            },
            _ => {},
        }
        if p.mastery == Some(MasteryStatus::Mastered) {
            mastered += 1;
        }
        hints = hints + p.hints_used;
        let ghost start = strings_view(commands@).to_set();
        let well = match p.mastery {
            Some(m) => !m.needs_revisiting(),
            None => false,
        };
        if well {
            match catalog.lesson(p.lesson_id.as_str()) {
                Some(l) => {
                    let mut c: usize = 0;
                    while c < l.commands.len()
                        invariant
                            c <= l.commands@.len(),
                            strictly_sorted(strings_view(commands@)),
                            strings_view(commands@).to_set() == start.union(strings_view(l.commands@).take(c as int).to_set()),
                        decreases l.commands.len() - c,
                    {
                        let ghost cvv = strings_view(l.commands@);
                        insert_sorted(&mut commands, l.commands[c].clone());
                        proof {
                            crate::catalog::lemma_take_to_set(cvv, c as int);
                        }
                        assert(strings_view(commands@).to_set() =~= start.union(cvv.take(c + 1).to_set()));
                        c += 1;
                    }
                    proof {
                        let cvv = strings_view(l.commands@);
                        assert(cvv.take(cvv.len() as int) =~= cvv);
                        let prev = ls.take(n as int);
                        let next = ls.take(n + 1);
                        assert forall|x: Seq<char>| #[trigger] mastered_commands(next, *catalog).contains(x) == start.union(cvv.to_set()).contains(x) by {
                            if mastered_commands(next, *catalog).contains(x) {
                                let i = choose|i: int| 0 <= i < next.len() && well_learned(#[trigger] next[i]) && match catalog.find_lesson(next[i].lesson_id@) {
                                    Some(l) => uses_command(l, x),
                                    None => false,
                                };
                                if i < n {
                                    assert(prev[i] == next[i]);
                                    assert(mastered_commands(prev, *catalog).contains(x));
                                }
                            }
                            if start.union(cvv.to_set()).contains(x) {
                                if start.contains(x) {
                                    let i = choose|i: int| 0 <= i < prev.len() && well_learned(#[trigger] prev[i]) && match catalog.find_lesson(prev[i].lesson_id@) {
                                        Some(l) => uses_command(l, x),
                                        None => false,
                                    };
                                    assert(next[i] == prev[i]);
                                } else {
                                    assert(next[n as int] == *p);
                                    assert(well_learned(next[n as int]));
                                }
                            }
                        }
                        assert(mastered_commands(next, *catalog) =~= start.union(cvv.to_set()));
                    }
                },
                None => {
                    proof {
                        let prev = ls.take(n as int);
                        let next = ls.take(n + 1);
                        assert forall|x: Seq<char>| #[trigger] mastered_commands(next, *catalog).contains(x) == start.contains(x) by {
                            if mastered_commands(next, *catalog).contains(x) {
                                let i = choose|i: int| 0 <= i < next.len() && well_learned(#[trigger] next[i]) && match catalog.find_lesson(next[i].lesson_id@) {
                                    Some(l) => uses_command(l, x),
                                    None => false,
                                };
                                if i < n {
                                    assert(prev[i] == next[i]);
                                }
                            }
                            if start.contains(x) {
                                let i = choose|i: int| 0 <= i < prev.len() && well_learned(#[trigger] prev[i]) && match catalog.find_lesson(prev[i].lesson_id@) {
                                    Some(l) => uses_command(l, x),
                                    None => false,
                                };
                                assert(next[i] == prev[i]);
                            }
                        }
                        assert(mastered_commands(next, *catalog) =~= start);
                    }
                },
            }
        } else {
            proof {
                let prev = ls.take(n as int);
                let next = ls.take(n + 1);
                assert forall|x: Seq<char>| #[trigger] mastered_commands(next, *catalog).contains(x) == start.contains(x) by {
                    if mastered_commands(next, *catalog).contains(x) {
                        let i = choose|i: int| 0 <= i < next.len() && well_learned(#[trigger] next[i]) && match catalog.find_lesson(next[i].lesson_id@) {
                            Some(l) => uses_command(l, x),
                            None => false,
                        };
                        if i < n {
                            assert(prev[i] == next[i]);
                        }
                    }
                    if start.contains(x) {
                        let i = choose|i: int| 0 <= i < prev.len() && well_learned(#[trigger] prev[i]) && match catalog.find_lesson(prev[i].lesson_id@) {
                            Some(l) => uses_command(l, x),
                            None => false,
                        };
                        assert(next[i] == prev[i]);
                    }
                }
                assert(mastered_commands(next, *catalog) =~= start);
            }
        }
        n += 1;
    }
    assert(ls.take(ls.len() as int) =~= ls);
    ProgressReport {
        lessons_attempted: lessons.len(),
        lessons_passed: passed,
        lessons_mastered: mastered,
        needs_review: review,
        hints_used: hints,
        commands_mastered: commands,
        common_failures,
        achievements,
        practice_seconds,
    }
}

proof fn lemma_hints_total_prefix(ls: Seq<LessonProgress>, n: int)
    requires
        0 <= n <= ls.len(),
    ensures
        hints_total(ls.take(n)) <= hints_total(ls),
    decreases ls.len() - n,
{
    if n < ls.len() {
        assert(ls.take(n + 1).drop_last() =~= ls.take(n));
        lemma_hints_total_prefix(ls, n + 1);
    } else {
        assert(ls.take(n) =~= ls);
    }
}

/// The message a failed command shows the learner: each message of the error's chain, from the
/// outermost context to the root cause, separated by `": "`.
pub fn to_message(chain: &Vec<String>) -> (r: String)
    ensures
        r@ == crate::text::join(crate::text::strings_view(chain@), ": "@),
{
    crate::text::join_strings(chain, ": ")
}

/// Records one check of `task` and builds what the learner sees. A pass is counted as such and
/// reveals the task's diagnosis; a failure is counted with the category of the primary failing
/// check. A pass that completes the lesson also gives what the lesson is completed with, for
/// the caller to store (the mastery shown is then the one the store keeps).
pub fn record_check(book: &mut AttemptBook, lesson: &Lesson, task: &Task, validation: TaskValidation) -> (r: (
    CheckResult,
    Option<Completion>,
))
    requires
        old(book).wf(),
        forall|k: Seq<char>| old(book)@.contains_key(k) ==> #[trigger] old(book)@[k].failed_checks < u32::MAX,
    ensures
        final(book).wf(),
        r.0.validation == validation,
        (Feedback {
            headline: r.0.headline,
            category: r.0.category,
            guidance: r.0.guidance,
            details: r.0.details,
            partial: r.0.partial,
            authoring_error: r.0.authoring_error,
        }).view_tuple() == feedback_spec(validation),
        r.0.mastery is None,
        r.0.lesson_complete == r.1 is Some,
        r.0.diagnosis == (if validation.passed { task.diagnosis } else { None }),
        validation.passed ==> exists|b: AttemptState|
            starting_point(old(book)@, lesson.id@, task.id@, b) && #[trigger] final(book)@ == old(book)@.insert(
                attempt_key_spec(lesson.id@, task.id@),
                AttemptState { passed: true, ..b },
            ),
        !validation.passed ==> r.1 is None && exists|b: AttemptState, a: AttemptState|
            starting_point(old(book)@, lesson.id@, task.id@, b) && #[trigger] final(book)@ == old(book)@.insert(
                attempt_key_spec(lesson.id@, task.id@),
                a,
            ) && a.failed_checks == b.failed_checks + 1 && a.passed == b.passed && a.hints_revealed
                == b.hints_revealed && a.solution_revealed == b.solution_revealed && match primary_category(validation) {
                Some(c) => if b.failure_categories@.contains(c) {
                    a.failure_categories@ == b.failure_categories@
                } else {
                    a.failure_categories@ == b.failure_categories@.push(c)
                },
                None => a.failure_categories@ == b.failure_categories@,
            },
        r.1 matches Some(c) ==> exists|attempts: Seq<AttemptState>|
            (forall|i: int| 0 <= i < attempts.len() ==> filed_under(final(book)@, lesson.id@, #[trigger] attempts[i]))
                && lesson_complete(*lesson, attempts) && c.total_hints == hints_opened(attempts)
                && (c.solution_revealed == exists|i: int| 0 <= i < attempts.len() && (#[trigger] attempts[i]).solution_revealed)
                && (forall|i: int| 0 <= i < attempts.len() ==> c.mastery.rank() <= (#[trigger] attempts[i]).mastery_spec(
                    lesson.lesson_type.hides_hints_spec(),
                ).rank()),
{
    let feedback = shape_feedback(&validation);
    if validation.passed {
        book.record_pass(lesson.id.as_str(), task.id.as_str());
        let attempts = book.lesson_attempts(lesson.id.as_str());
        let done = if hints_fit(attempts.as_slice()) {
            completion(lesson, attempts.as_slice())
        } else {
            None
        };
        let mut result = CheckResult::new(validation, feedback);
        result.diagnosis = copy_optional(&task.diagnosis);
        result.lesson_complete = done.is_some();
        (result, done)
    } else {
        let category = match &validation.primary_failure {
            Some(f) => f.failure_category,
            None => None,
        };
        book.record_failure(lesson.id.as_str(), task.id.as_str(), category);
        (CheckResult::new(validation, feedback), None)
    }
}

/// The category of a validation's primary failing check, if it has one.
pub open spec fn primary_category(v: TaskValidation) -> Option<crate::validation::FailureCategory> {
    match v.primary_failure {
        Some(f) => f.failure_category,
        None => None,
    }
}

} // verus!
