//! Hint progression and attempt bookkeeping.
//!
//! Hints are revealed one at a time, conceptual first. The solution sits behind the last hint
//! and is tracked separately, because revealing it changes the mastery outcome even when no
//! hints were opened. Nothing here writes to the terminal: the learner always types the
//! answer themselves.
use crate::lesson::Task;
use crate::progress::MasteryStatus;
use crate::text::owned;
use crate::validation::FailureCategory;
use vstd::prelude::*;

verus! {

#[derive(Debug, Clone, PartialEq, Eq)]
pub struct AttemptState {
    pub lesson_id: String,
    pub task_id: String,
    /// How many hints the learner has opened for the task.
    pub hints_revealed: usize,
    pub solution_revealed: bool,
    pub failed_checks: u32,
    /// Distinct failure categories seen, for the "weak concepts" report.
    pub failure_categories: Vec<FailureCategory>,
    pub passed: bool,
}

#[derive(Debug, Clone, PartialEq, Eq)]
pub struct HintReveal {
    pub index: usize,
    pub text: String,
    pub remaining: usize,
    /// True when the next request would reveal the worked solution.
    pub solution_next: bool,
}

#[derive(Debug, Clone, PartialEq, Eq)]
pub enum HintOutcome {
    Hint(HintReveal),
    /// All hints are used; the caller may offer "Show solution" explicitly.
    SolutionAvailable,
    /// Assessment lessons offer neither.
    Unavailable(&'static str),
}

pub open spec fn hints_unavailable_message() -> Seq<char> {
    "Hints are not available in an assessment. Work from what you know, and review the lesson afterwards."@
}

pub open spec fn solution_unavailable_message() -> Seq<char> {
    "The solution is not available in an assessment."@
}

impl AttemptState {
    pub open spec fn mastery_spec(self, is_assessment: bool) -> MasteryStatus {
        MasteryStatus::evaluate_spec(
            self.passed,
            is_assessment,
            self.hints_revealed as u32,
            self.solution_revealed,
        )
    }

    /// Equal fields, the categories compared by their elements.
    pub open spec fn same_as(self, other: AttemptState) -> bool {
        &&& self.lesson_id == other.lesson_id
        &&& self.task_id == other.task_id
        &&& self.hints_revealed == other.hints_revealed
        &&& self.solution_revealed == other.solution_revealed
        &&& self.failed_checks == other.failed_checks
        &&& self.failure_categories@ == other.failure_categories@
        &&& self.passed == other.passed
    }

    /// An equal copy.
    pub fn duplicate(&self) -> (r: AttemptState)
        ensures
            r.same_as(*self),
    {
        let mut categories: Vec<FailureCategory> = Vec::new();
        let mut i: usize = 0;
        while i < self.failure_categories.len()
            invariant
                i <= self.failure_categories@.len(),
                categories@ == self.failure_categories@.take(i as int),
            decreases self.failure_categories.len() - i,
        {
            categories.push(self.failure_categories[i]);
            i += 1;
            assert(categories@ =~= self.failure_categories@.take(i as int));
        }
        assert(self.failure_categories@.take(self.failure_categories@.len() as int) =~= self.failure_categories@);
        AttemptState {
            lesson_id: self.lesson_id.clone(),
            task_id: self.task_id.clone(),
            hints_revealed: self.hints_revealed,
            solution_revealed: self.solution_revealed,
            failed_checks: self.failed_checks,
            failure_categories: categories,
            passed: self.passed,
        }
    }

    /// A fresh attempt at one task.
    pub fn new(lesson_id: &str, task_id: &str) -> (r: AttemptState)
        ensures
            r.lesson_id@ == lesson_id@,
            r.task_id@ == task_id@,
            r.hints_revealed == 0,
            !r.solution_revealed,
            r.failed_checks == 0,
            r.failure_categories@ == Seq::<FailureCategory>::empty(),
            !r.passed,
    {
        AttemptState {
            lesson_id: owned(lesson_id),
            task_id: owned(task_id),
            hints_revealed: 0,
            solution_revealed: false,
            failed_checks: 0,
            failure_categories: Vec::new(),
            passed: false,
        }
    }

    /// Reveals the next hint, if the lesson allows hints at all.
    pub fn reveal_next_hint(&mut self, task: &Task, hints_allowed: bool) -> (r: HintOutcome)
        ensures
            !hints_allowed ==> *final(self) == *old(self) && (r matches HintOutcome::Unavailable(m)
                && m@ == hints_unavailable_message()),
            hints_allowed && old(self).hints_revealed >= task.hints@.len() ==> *final(self)
                == *old(self) && r == HintOutcome::SolutionAvailable,
            hints_allowed && old(self).hints_revealed < task.hints@.len() ==> {
                &&& *final(self) == (AttemptState {
                    hints_revealed: (old(self).hints_revealed + 1) as usize,
                    ..*old(self)
                })
                &&& r matches HintOutcome::Hint(h)
                &&& h.index == old(self).hints_revealed
                &&& h.text@ == task.hints@[h.index as int]@
                &&& h.remaining == task.hints@.len() - final(self).hints_revealed
                &&& h.solution_next == (h.remaining == 0)
            },
    {
        if !hints_allowed {
            return HintOutcome::Unavailable(
                "Hints are not available in an assessment. Work from what you know, and review the lesson afterwards.",
            );
        }
        if task.hints.len() == 0 {
            return HintOutcome::SolutionAvailable;
        }
        if self.hints_revealed >= task.hints.len() {
            return HintOutcome::SolutionAvailable;
        }
        let index = self.hints_revealed;
        self.hints_revealed = self.hints_revealed + 1;
        let remaining = task.hints.len() - self.hints_revealed;
        HintOutcome::Hint(
            HintReveal {
                index,
                text: task.hints[index].clone(),
                remaining,
                solution_next: remaining == 0,
            },
        )
    }

    /// Marks the worked solution as shown. Idempotent, so a double click does not
    /// double-count.
    pub fn reveal_solution(&mut self, hints_allowed: bool) -> (r: Option<&'static str>)
        ensures
            !hints_allowed ==> *final(self) == *old(self) && (r matches Some(m) && m@
                == solution_unavailable_message()),
            hints_allowed ==> *final(self) == (AttemptState {
                solution_revealed: true,
                ..*old(self)
            }) && r is None,
    {
        if !hints_allowed {
            return Some("The solution is not available in an assessment.");
        }
        self.solution_revealed = true;
        None
    }

    /// Counts a failed check and remembers its category once.
    pub fn record_failure(&mut self, category: Option<FailureCategory>)
        requires
            old(self).failed_checks < u32::MAX,
        ensures
            final(self).failed_checks == old(self).failed_checks + 1,
            final(self).lesson_id == old(self).lesson_id,
            final(self).task_id == old(self).task_id,
            final(self).hints_revealed == old(self).hints_revealed,
            final(self).solution_revealed == old(self).solution_revealed,
            final(self).passed == old(self).passed,
            match category {
                Some(c) => if old(self).failure_categories@.contains(c) {
                    final(self).failure_categories@ == old(self).failure_categories@
                } else {
                    final(self).failure_categories@ == old(self).failure_categories@.push(c)
                },
                None => final(self).failure_categories@ == old(self).failure_categories@,
            },
    {
        self.failed_checks = self.failed_checks + 1;
        if let Some(category) = category {
            let mut seen = false;
            let mut i: usize = 0;
            while i < self.failure_categories.len()
                invariant
                    i <= self.failure_categories@.len(),
                    seen == exists|j: int|
                        0 <= j < i && #[trigger] self.failure_categories@[j] == category,
                decreases self.failure_categories.len() - i,
            {
                if self.failure_categories[i] == category {
                    seen = true;
                }
                i += 1;
            }
            if !seen {
                self.failure_categories.push(category);
            }
        }
    }

    pub fn record_pass(&mut self)
        ensures
            *final(self) == (AttemptState { passed: true, ..*old(self) }),
    {
        self.passed = true;
    }

    /// Where this attempt stands on the mastery ladder.
    pub fn mastery(&self, is_assessment: bool) -> (r: MasteryStatus)
        ensures
            r == self.mastery_spec(is_assessment),
    {
        MasteryStatus::evaluate(
            self.passed,
            is_assessment,
            self.hints_revealed as u32,
            self.solution_revealed,
        )
    }
}

/// Rolls per-task attempts up into a lesson result. The lesson takes the *worst* mastery of
/// its tasks: a learner who needed the answer for one task has not mastered the lesson.
pub fn lesson_mastery(attempts: &[AttemptState], is_assessment: bool) -> (r: MasteryStatus)
    ensures
        attempts@.len() == 0 ==> r == MasteryStatus::NeedsReview,
        forall|i: int|
            0 <= i < attempts@.len() ==> r.rank() <= (#[trigger] attempts@[i]).mastery_spec(
                is_assessment,
            ).rank(),
        attempts@.len() > 0 ==> exists|i: int|
            0 <= i < attempts@.len() && r == (#[trigger] attempts@[i]).mastery_spec(is_assessment),
{
    if attempts.len() == 0 {
        return MasteryStatus::NeedsReview;
    }
    let mut weakest = attempts[0].mastery(is_assessment);
    let mut i: usize = 1;
    while i < attempts.len()
        invariant
            1 <= i <= attempts@.len(),
            forall|j: int|
                0 <= j < i ==> weakest.rank() <= (#[trigger] attempts@[j]).mastery_spec(
                    is_assessment,
                ).rank(),
            exists|j: int| 0 <= j < i && weakest == (#[trigger] attempts@[j]).mastery_spec(is_assessment),
        decreases attempts.len() - i,
    {
        let m = attempts[i].mastery(is_assessment);
        weakest = weakest.weaker(m);
        i += 1;
    }
    weakest
}

/// Sum of the hints opened across the attempts.
pub open spec fn hints_opened(attempts: Seq<AttemptState>) -> nat
    decreases attempts.len(),
{
    if attempts.len() == 0 {
        0
    } else {
        hints_opened(attempts.drop_last()) + (attempts.last().hints_revealed as u32) as nat
    }
}

pub(crate) proof fn lemma_hints_opened_prefix(attempts: Seq<AttemptState>, n: int)
    requires
        0 <= n <= attempts.len(),
    ensures
        hints_opened(attempts.subrange(0, n)) <= hints_opened(attempts),
    decreases attempts.len() - n,
{
    if n < attempts.len() {
        lemma_hints_opened_prefix(attempts, n + 1);
        assert(attempts.subrange(0, n + 1).drop_last() =~= attempts.subrange(0, n));
    } else {
        assert(attempts.subrange(0, n) =~= attempts);
    }
}

/// Whether the hints opened across the attempts add up to a number a `u32` holds.
pub fn hints_fit(attempts: &[AttemptState]) -> (r: bool)
    ensures
        r == (hints_opened(attempts@) <= u32::MAX),
{
    let mut total: u64 = 0;
    let mut i: usize = 0;
    while i < attempts.len()
        invariant
            i <= attempts@.len(),
            total == hints_opened(attempts@.subrange(0, i as int)),
            total <= u32::MAX,
        decreases attempts.len() - i,
    {
        assert(attempts@.subrange(0, i + 1).drop_last() =~= attempts@.subrange(0, i as int));
        let next: u64 = total + attempts[i].hints_revealed as u32 as u64;
        if next > 0xffff_ffffu64 {
            proof {
                lemma_hints_opened_prefix(attempts@, i + 1);
            }
            return false;
        }
        total = next;
        i += 1;
    }
    assert(attempts@.subrange(0, attempts@.len() as int) =~= attempts@);
    true
}

/// Total hints opened across a lesson, stored on the lesson's progress record.
pub fn total_hints(attempts: &[AttemptState]) -> (r: u32)
    requires
        hints_opened(attempts@) <= u32::MAX,
    ensures
        r == hints_opened(attempts@),
{
    let mut total: u32 = 0;
    let mut i: usize = 0;
    while i < attempts.len()
        invariant
            i <= attempts@.len(),
            hints_opened(attempts@) <= u32::MAX,
            total == hints_opened(attempts@.subrange(0, i as int)),
        decreases attempts.len() - i,
    {
        proof {
            lemma_hints_opened_prefix(attempts@, i + 1);
            assert(attempts@.subrange(0, i + 1).drop_last() =~= attempts@.subrange(0, i as int));
        }
        total = total + attempts[i].hints_revealed as u32;
        i += 1;
    }
    assert(attempts@.subrange(0, attempts@.len() as int) =~= attempts@);
    total
}

} // verus!
