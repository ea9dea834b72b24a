//! Progress and mastery. All of this stays on the local machine.
use crate::validation::FailureCategory;
use vstd::prelude::*;

verus! {

#[derive(Debug, Clone, Copy, PartialEq, Eq, Structural, Hash)]
pub enum LessonStatus {
    NotStarted,
    InProgress,
    Passed,
    NeedsReview,
}

/// The mastery ladder, weakest first. `Passed` and `NeedsReview` both still let the learner
/// move on: hints never block progression.
#[derive(Debug, Clone, Copy, PartialEq, Eq, Structural, Hash, PartialOrd, Ord)]
pub enum MasteryStatus {
    ReviewRequired,
    NeedsReview,
    Passed,
    Strong,
    Mastered,
}

impl MasteryStatus {
    /// Position on the ladder; the derived ordering follows it.
    pub open spec fn rank(self) -> int {
        match self {
            MasteryStatus::ReviewRequired => 0,
            MasteryStatus::NeedsReview => 1,
            MasteryStatus::Passed => 2,
            MasteryStatus::Strong => 3,
            MasteryStatus::Mastered => 4,
        }
    }

    pub fn ladder_rank(self) -> (r: u8)
        ensures
            r == self.rank(),
    {
        match self {
            MasteryStatus::ReviewRequired => 0,
            MasteryStatus::NeedsReview => 1,
            MasteryStatus::Passed => 2,
            MasteryStatus::Strong => 3,
            MasteryStatus::Mastered => 4,
        }
    }

    /// Whether `self` is at most as strong as `other` (the derived `<=`).
    pub fn at_most(self, other: MasteryStatus) -> (r: bool)
        ensures
            r == (self.rank() <= other.rank()),
    {
        self.ladder_rank() <= other.ladder_rank()
    }

    /// The weaker of two statuses.
    pub fn weaker(self, other: MasteryStatus) -> (r: MasteryStatus)
        ensures
            r == (if self.rank() <= other.rank() {
                self
            } else {
                other
            }),
    {
        if self.at_most(other) {
            self
        } else {
            other
        }
    }

    /// The stronger of two statuses.
    pub fn stronger(self, other: MasteryStatus) -> (r: MasteryStatus)
        ensures
            r == (if self.rank() >= other.rank() {
                self
            } else {
                other
            }),
    {
        if other.at_most(self) {
            self
        } else {
            other
        }
    }

    pub open spec fn evaluate_spec(
        passed: bool,
        is_assessment: bool,
        hints_used: u32,
        solution_revealed: bool,
    ) -> MasteryStatus {
        if !passed {
            if is_assessment {
                MasteryStatus::ReviewRequired
            } else {
                MasteryStatus::NeedsReview
            }
        } else if solution_revealed {
            MasteryStatus::NeedsReview
        } else if hints_used == 0 {
            MasteryStatus::Mastered
        } else if hints_used == 1 {
            MasteryStatus::Strong
        } else {
            MasteryStatus::Passed
        }
    }

    /// Maps an attempt onto the ladder. Revealing the solution outranks hint counting.
    pub fn evaluate(passed: bool, is_assessment: bool, hints_used: u32, solution_revealed: bool) -> (r:
        MasteryStatus)
        ensures
            r == Self::evaluate_spec(passed, is_assessment, hints_used, solution_revealed),
            !passed ==> r.rank() <= 1,
            passed ==> r.rank() >= 1,
            passed && solution_revealed ==> r == MasteryStatus::NeedsReview,
    {
        if !passed {
            return if is_assessment {
                MasteryStatus::ReviewRequired
            } else {
                MasteryStatus::NeedsReview
            };
        }
        if solution_revealed {
            return MasteryStatus::NeedsReview;
        }
        match hints_used {
            0 => MasteryStatus::Mastered,
            1 => MasteryStatus::Strong,
            _ => MasteryStatus::Passed,
        }
    }

    pub open spec fn score_spec(self) -> u8 {
        match self {
            MasteryStatus::Mastered => 100,
            MasteryStatus::Strong => 85,
            MasteryStatus::Passed => 70,
            MasteryStatus::NeedsReview => 40,
            MasteryStatus::ReviewRequired => 0,
        }
    }

    /// Weight used when averaging a module into a mastery percentage.
    pub fn score(self) -> (r: u8)
        ensures
            r == self.score_spec(),
            r <= 100,
    {
        match self {
            MasteryStatus::Mastered => 100,
            MasteryStatus::Strong => 85,
            MasteryStatus::Passed => 70,
            MasteryStatus::NeedsReview => 40,
            MasteryStatus::ReviewRequired => 0,
        }
    }

    pub open spec fn label_spec(self) -> Seq<char> {
        match self {
            MasteryStatus::Mastered => "Mastered"@,
            MasteryStatus::Strong => "Strong"@,
            MasteryStatus::Passed => "Passed"@,
            MasteryStatus::NeedsReview => "Needs review"@,
            MasteryStatus::ReviewRequired => "Review required"@,
        }
    }

    pub fn label(self) -> (r: &'static str)
        ensures
            r@ == self.label_spec(),
    {
        match self {
            MasteryStatus::Mastered => "Mastered",
            MasteryStatus::Strong => "Strong",
            MasteryStatus::Passed => "Passed",
            MasteryStatus::NeedsReview => "Needs review",
            MasteryStatus::ReviewRequired => "Review required",
        }
    }

    /// Lessons at or below `NeedsReview` are what "Review Weak Commands" offers first.
    pub fn needs_revisiting(self) -> (r: bool)
        ensures
            r == (self.rank() <= 1),
    {
        self.at_most(MasteryStatus::NeedsReview)
    }
}

/// A better mastery scores at least as much as a weaker one.
pub proof fn lemma_score_monotone(a: MasteryStatus, b: MasteryStatus)
    requires
        a.rank() <= b.rank(),
    ensures
        a.score_spec() <= b.score_spec(),
{
}

#[derive(Debug, Clone, PartialEq, Eq)]
pub struct LessonProgress {
    pub profile_id: i64,
    pub lesson_id: String,
    pub status: LessonStatus,
    pub attempts: u32,
    pub hints_used: u32,
    pub solution_revealed: bool,
    pub mastery: Option<MasteryStatus>,
    pub mastery_score: u8,
    pub first_started_at: Option<i64>,
    pub completed_at: Option<i64>,
    pub last_attempt_at: Option<i64>,
}

#[derive(Debug, Clone, PartialEq, Eq)]
pub struct TaskAttempt {
    pub id: Option<i64>,
    pub profile_id: i64,
    pub lesson_id: String,
    pub task_id: String,
    pub passed: bool,
    pub failure_category: Option<FailureCategory>,
    pub hints_used: u32,
    pub created_at: i64,
}

#[derive(Debug, Clone, PartialEq, Eq)]
pub struct ModuleProgress {
    pub profile_id: i64,
    pub module_id: String,
    pub completed_lessons: u32,
    pub total_lessons: u32,
    pub assessment_score: Option<u8>,
    /// Average mastery across attempted lessons, 0-100.
    pub mastery_percent: u8,
}

/// `part / whole` as a percentage rounded half away from zero, saturated at `u8::MAX` the way
/// a float-to-integer cast saturates.
pub open spec fn rounded_percent(part: nat, whole: nat) -> nat {
    if whole == 0 {
        0
    } else {
        let p = (200 * part + whole) / (2 * whole);
        if p > 255 {
            255
        } else {
            p
        }
    }
}

/// The rounded percentage of two counts; see [`rounded_percent`].
pub fn percent_of(part: u32, whole: u32) -> (r: u8)
    ensures
        r == rounded_percent(part as nat, whole as nat),
        part <= whole ==> r <= 100,
        part == whole && whole > 0 ==> r == 100,
{
    if whole == 0 {
        return 0;
    }
    let p: u64 = (200 * (part as u64) + whole as u64) / (2 * whole as u64);
    proof {
        if part <= whole {
            assert((200 * part + whole) / (2 * whole as int) <= 100) by (nonlinear_arith)
                requires
                    part <= whole,
                    whole > 0,
            ;
        }
        if part == whole && whole > 0 {
            assert((200 * part + whole) / (2 * whole as int) == 100) by (nonlinear_arith)
                requires
                    part == whole,
                    whole > 0,
            ;
        }
    }
    if p > 255 {
        255
    } else {
        p as u8
    }
}

impl ModuleProgress {
    /// Completed lessons as a rounded percentage of the module.
    pub fn completion_percent(&self) -> (r: u8)
        ensures
            r == rounded_percent(self.completed_lessons as nat, self.total_lessons as nat),
    {
        percent_of(self.completed_lessons, self.total_lessons)
    }
}


/// How an attempt is rated. A failed attempt is rated the same whatever hints or solutions
/// were used: `ReviewRequired` in an assessment and `NeedsReview` anywhere else. A passed
/// attempt is rated `NeedsReview` once its solution was revealed, and otherwise by its hints:
/// `Mastered` with none, `Strong` with one and `Passed` with more, so more hints never rate
/// higher. A pass never rates below a failure of the same kind of lesson.
pub proof fn lemma_attempt_rating(
    passed: bool,
    is_assessment: bool,
    hints_used: u32,
    solution_revealed: bool,
    more_hints: u32,
)
    ensures
        !passed ==> (MasteryStatus::evaluate_spec(passed, is_assessment, hints_used, solution_revealed)
            == MasteryStatus::ReviewRequired <==> is_assessment),
        !passed && !is_assessment ==> MasteryStatus::evaluate_spec(passed, is_assessment, hints_used, solution_revealed)
            == MasteryStatus::NeedsReview,
        !passed ==> MasteryStatus::evaluate_spec(passed, is_assessment, hints_used, solution_revealed)
            == MasteryStatus::evaluate_spec(passed, is_assessment, more_hints, !solution_revealed),
        passed && solution_revealed ==> MasteryStatus::evaluate_spec(passed, is_assessment, hints_used, solution_revealed)
            == MasteryStatus::NeedsReview,
        passed && !solution_revealed && hints_used == 0 ==> MasteryStatus::evaluate_spec(
            passed,
            is_assessment,
            hints_used,
            solution_revealed,
        ) == MasteryStatus::Mastered,
        passed && !solution_revealed && hints_used == 1 ==> MasteryStatus::evaluate_spec(
            passed,
            is_assessment,
            hints_used,
            solution_revealed,
        ) == MasteryStatus::Strong,
        passed && !solution_revealed && hints_used >= 2 ==> MasteryStatus::evaluate_spec(
            passed,
            is_assessment,
            hints_used,
            solution_revealed,
        ) == MasteryStatus::Passed,
        hints_used <= more_hints ==> MasteryStatus::evaluate_spec(passed, is_assessment, more_hints, solution_revealed).rank()
            <= MasteryStatus::evaluate_spec(passed, is_assessment, hints_used, solution_revealed).rank(),
        MasteryStatus::evaluate_spec(true, is_assessment, hints_used, solution_revealed).rank()
            >= MasteryStatus::evaluate_spec(false, is_assessment, more_hints, solution_revealed).rank(),
{
}

} // verus!
