use linux_practice_lab::console::{summarise_console, summarise_console_text};
use linux_practice_lab::feedback::shape_feedback;
use linux_practice_lab::hints::{lesson_mastery, total_hints, AttemptState, HintOutcome};
use linux_practice_lab::lesson::{
    LessonType, ReviewQuestion, ReviewQuestionType, Task, TaskKind,
};
use linux_practice_lab::progress::{percent_of, MasteryStatus, ModuleProgress};
use linux_practice_lab::store::{
    best_mastery, mastery_str, merge_completion, parse_mastery, parse_status, status_str, HistoryRetention,
};
use linux_practice_lab::progress::LessonStatus;
use linux_practice_lab::validation::{CheckOutcome, FailureCategory, TaskValidation};

fn validation(outcomes: Vec<CheckOutcome>) -> TaskValidation {
    TaskValidation::from_outcomes("l", "task-1", outcomes)
}

#[test]
fn passing_says_so_and_nothing_more() {
    let f = shape_feedback(&validation(vec![CheckOutcome::pass("file_exists", "ok")]));
    assert_eq!(f.headline, "Correct.");
    assert!(f.details.is_empty());
    assert!(!f.partial);
}

#[test]
fn a_single_cause_is_reported_with_its_guidance() {
    let f = shape_feedback(&validation(vec![CheckOutcome::fail(
        "directory_exists",
        "The directory /home/student/reports does not exist.",
        FailureCategory::WrongPath,
    )]));
    assert_eq!(f.category, Some(FailureCategory::WrongPath));
    assert!(f.guidance.unwrap().contains("does not exist yet"));
    assert!(!f.partial);
    assert_eq!(f.headline, "Not quite yet.");
}

#[test]
fn partial_completion_leads_with_progress() {
    let f = shape_feedback(&validation(vec![
        CheckOutcome::pass("directory_exists", "ok"),
        CheckOutcome::fail("file_exists", "missing", FailureCategory::WrongPath),
    ]));
    assert!(f.partial);
    assert!(f.headline.contains("50%"), "{}", f.headline);
}

#[test]
fn disagreeing_causes_become_partially_completed() {
    let f = shape_feedback(&validation(vec![
        CheckOutcome::pass("directory_exists", "ok"),
        CheckOutcome::fail("file_owner", "wrong owner", FailureCategory::WrongOwnership),
        CheckOutcome::fail("file_mode", "wrong mode", FailureCategory::WrongPermissions),
    ]));
    assert_eq!(f.category, Some(FailureCategory::TaskPartiallyCompleted));
}

#[test]
fn observed_and_expected_are_folded_into_the_detail_line() {
    let outcome = CheckOutcome::fail(
        "file_mode",
        "The permissions are not what the task asked for.",
        FailureCategory::WrongPermissions,
    )
    .expected("0640")
    .observed("0644");
    let f = shape_feedback(&validation(vec![outcome]));
    assert_eq!(
        f.details[0],
        "The permissions are not what the task asked for. (expected 0640, found 0644)"
    );
}

#[test]
fn a_broken_validator_is_never_reported_as_a_wrong_answer() {
    let f = shape_feedback(&validation(vec![CheckOutcome::error(
        "nonexistent_validator",
        "unknown validator 'nonexistent_validator'",
    )]));
    assert!(f.authoring_error);
    assert_eq!(f.headline, "The task could not be checked.");
    assert!(f.guidance.unwrap().contains("faulty rather than your answer"));
}

#[test]
fn a_real_failure_alongside_a_broken_validator_still_coaches_the_learner() {
    let f = shape_feedback(&validation(vec![
        CheckOutcome::error("broken", "unknown validator"),
        CheckOutcome::fail("file_exists", "missing", FailureCategory::WrongPath),
    ]));
    assert!(!f.authoring_error);
    assert_eq!(f.category, Some(FailureCategory::WrongPath));
    assert_eq!(f.details.len(), 2);
}

fn task_with_hints(hints: &[&str]) -> Task {
    Task {
        id: "task-1".into(),
        kind: TaskKind::Guided,
        instruction: "Do it.".into(),
        context: None,
        broken_command: None,
        diagnosis: None,
        validators: vec![],
        hints: hints.iter().map(|h| h.to_string()).collect(),
        suggested_solution: Some("mkdir reports".into()),
        known_incorrect_solution: None,
        alternate_solutions: vec![],
        optional: false,
    }
}

#[test]
fn hints_are_revealed_one_at_a_time_and_then_the_solution_is_offered() {
    let task = task_with_hints(&["first", "second"]);
    let mut state = AttemptState::new("l", "task-1");
    match state.reveal_next_hint(&task, true) {
        HintOutcome::Hint(reveal) => {
            assert_eq!(reveal.index, 0);
            assert_eq!(reveal.text, "first");
            assert_eq!(reveal.remaining, 1);
            assert!(!reveal.solution_next);
        }
        other => panic!("expected a hint, got {other:?}"),
    }
    match state.reveal_next_hint(&task, true) {
        HintOutcome::Hint(reveal) => {
            assert_eq!(reveal.text, "second");
            assert!(reveal.solution_next);
        }
        other => panic!("expected a hint, got {other:?}"),
    }
    assert_eq!(state.reveal_next_hint(&task, true), HintOutcome::SolutionAvailable);
    assert_eq!(state.hints_revealed, 2);
}

#[test]
fn assessments_offer_neither_hints_nor_the_solution() {
    let task = task_with_hints(&["a hint"]);
    let mut state = AttemptState::new("l", "task-1");
    assert!(matches!(state.reveal_next_hint(&task, false), HintOutcome::Unavailable(_)));
    assert_eq!(state.hints_revealed, 0);
    assert!(state.reveal_solution(false).is_some());
    assert!(!state.solution_revealed);
}

#[test]
fn revealing_the_solution_twice_counts_once() {
    let mut state = AttemptState::new("l", "task-1");
    assert!(state.reveal_solution(true).is_none());
    assert!(state.reveal_solution(true).is_none());
    assert!(state.solution_revealed);
}

#[test]
fn mastery_reflects_hint_usage() {
    let task = task_with_hints(&["a", "b"]);

    let mut clean = AttemptState::new("l", "task-1");
    clean.record_pass();
    assert_eq!(clean.mastery(false), MasteryStatus::Mastered);

    let mut one_hint = AttemptState::new("l", "task-1");
    one_hint.reveal_next_hint(&task, true);
    one_hint.record_pass();
    assert_eq!(one_hint.mastery(false), MasteryStatus::Strong);

    let mut two_hints = AttemptState::new("l", "task-1");
    two_hints.reveal_next_hint(&task, true);
    two_hints.reveal_next_hint(&task, true);
    two_hints.record_pass();
    assert_eq!(two_hints.mastery(false), MasteryStatus::Passed);
}

#[test]
fn lesson_mastery_takes_the_weakest_task() {
    let mut mastered = AttemptState::new("l", "task-1");
    mastered.record_pass();
    let mut struggled = AttemptState::new("l", "task-2");
    struggled.reveal_solution(true);
    struggled.record_pass();

    assert_eq!(lesson_mastery(&[mastered, struggled], false), MasteryStatus::NeedsReview);
}

#[test]
fn hints_are_totalled_across_tasks() {
    let task = task_with_hints(&["a", "b"]);
    let mut first = AttemptState::new("l", "task-1");
    first.reveal_next_hint(&task, true);
    let mut second = AttemptState::new("l", "task-2");
    second.reveal_next_hint(&task, true);
    second.reveal_next_hint(&task, true);
    assert_eq!(total_hints(&[first, second]), 3);
}

#[test]
fn failure_categories_are_deduplicated() {
    let mut state = AttemptState::new("l", "task-1");
    state.record_failure(Some(FailureCategory::WrongPath));
    state.record_failure(Some(FailureCategory::WrongPath));
    state.record_failure(Some(FailureCategory::PermissionDenied));
    assert_eq!(state.failed_checks, 3);
    assert_eq!(state.failure_categories.len(), 2);
}

#[test]
fn mastery_ladder_matches_spec_table() {
    assert_eq!(MasteryStatus::evaluate(true, false, 0, false), MasteryStatus::Mastered);
    assert_eq!(MasteryStatus::evaluate(true, false, 1, false), MasteryStatus::Strong);
    assert_eq!(MasteryStatus::evaluate(true, false, 3, false), MasteryStatus::Passed);
    assert_eq!(MasteryStatus::evaluate(true, false, 0, true), MasteryStatus::NeedsReview);
    assert_eq!(MasteryStatus::evaluate(false, true, 0, false), MasteryStatus::ReviewRequired);
}

#[test]
fn revealing_the_solution_outranks_a_low_hint_count() {
    assert_eq!(MasteryStatus::evaluate(true, false, 0, true), MasteryStatus::NeedsReview);
}

#[test]
fn weak_lessons_are_the_ones_at_or_below_needs_review() {
    assert!(MasteryStatus::NeedsReview.needs_revisiting());
    assert!(MasteryStatus::ReviewRequired.needs_revisiting());
    assert!(!MasteryStatus::Passed.needs_revisiting());
}

#[test]
fn module_completion_rounds() {
    let p = ModuleProgress {
        profile_id: 1,
        module_id: "m".into(),
        completed_lessons: 1,
        total_lessons: 3,
        assessment_score: None,
        mastery_percent: 0,
    };
    assert_eq!(p.completion_percent(), 33);
}

#[test]
fn percentages_round_half_up_and_an_empty_whole_is_zero() {
    assert_eq!(percent_of(1, 2), 50);
    assert_eq!(percent_of(2, 3), 67);
    assert_eq!(percent_of(1, 8), 13);
    assert_eq!(percent_of(5, 0), 0);
}

#[test]
fn short_answer_grading_ignores_case_and_extra_spaces() {
    let q = ReviewQuestion {
        question_type: ReviewQuestionType::CommandRecall,
        question: "Which command creates a directory?".into(),
        answers: vec![],
        correct_answer: None,
        correct_answers: vec![],
        accepted_answers: vec!["mkdir".into(), "mkdir -p".into()],
        explanation: None,
    };
    assert!(q.accepts_text("MkDir"));
    assert!(q.accepts_text("  mkdir   -p "));
    assert!(!q.accepts_text("rmdir"));
}

#[test]
fn assessment_lessons_hide_hints() {
    assert!(LessonType::Assessment.hides_hints());
    assert!(LessonType::Capstone.hides_hints());
    assert!(!LessonType::GuidedPractice.hides_hints());
}

#[test]
fn completion_percent_is_weighted() {
    let outcomes = vec![
        CheckOutcome::pass("directory_exists", "ok").weighted(3),
        CheckOutcome::fail("file_exists", "missing", FailureCategory::WrongPath).weighted(1),
    ];
    let v = TaskValidation::from_outcomes("l", "task-1", outcomes);
    assert!(!v.passed);
    assert_eq!(v.completion_percent, 75);
    assert_eq!(v.primary_failure.unwrap().kind, "file_exists");
}

#[test]
fn all_passing_marks_task_passed() {
    let v = TaskValidation::from_outcomes("l", "task-1", vec![CheckOutcome::pass("file_exists", "ok")]);
    assert!(v.passed);
    assert_eq!(v.completion_percent, 100);
    assert!(v.primary_failure.is_none());
}

#[test]
fn empty_validator_list_never_passes() {
    let v = TaskValidation::from_outcomes("l", "task-1", vec![]);
    assert!(!v.passed);
    assert_eq!(v.completion_percent, 0);
}

#[test]
fn errored_check_is_not_a_pass_and_real_failures_are_preferred() {
    let outcomes = vec![
        CheckOutcome::error("mystery_validator", "unknown validator"),
        CheckOutcome::fail("file_exists", "missing", FailureCategory::WrongPath),
    ];
    let v = TaskValidation::from_outcomes("l", "task-1", outcomes);
    assert!(!v.passed);
    assert!(v.errored);
    assert_eq!(v.primary_failure.unwrap().kind, "file_exists");
}

#[test]
fn failure_category_keys_round_trip() {
    for category in [
        FailureCategory::WrongPath,
        FailureCategory::PermissionDenied,
        FailureCategory::TaskPartiallyCompleted,
    ] {
        assert_eq!(FailureCategory::from_key(category.key()), Some(category));
    }
    assert_eq!(FailureCategory::from_key("no-such-category"), None);
}

#[test]
fn retention_setting_parses_and_renders_symmetrically() {
    for retention in [
        HistoryRetention::DoNotSave,
        HistoryRetention::LastSession,
        HistoryRetention::Days(30),
        HistoryRetention::Forever,
    ] {
        assert_eq!(HistoryRetention::parse(&retention.as_setting()), retention);
    }
    assert_eq!(HistoryRetention::parse("wat"), HistoryRetention::DoNotSave);
}

#[test]
fn lesson_statuses_and_mastery_round_trip_through_their_stored_text() {
    for status in [
        LessonStatus::NotStarted,
        LessonStatus::InProgress,
        LessonStatus::Passed,
        LessonStatus::NeedsReview,
    ] {
        assert_eq!(parse_status(status_str(status)), status);
    }
    for mastery in [
        MasteryStatus::Mastered,
        MasteryStatus::Strong,
        MasteryStatus::Passed,
        MasteryStatus::NeedsReview,
        MasteryStatus::ReviewRequired,
    ] {
        assert_eq!(parse_mastery(mastery_str(mastery)), Some(mastery));
    }
}

#[test]
fn a_repeat_attempt_never_downgrades_mastery() {
    assert_eq!(
        best_mastery(Some(MasteryStatus::Mastered), MasteryStatus::NeedsReview),
        MasteryStatus::Mastered
    );
    assert_eq!(
        best_mastery(Some(MasteryStatus::Passed), MasteryStatus::Strong),
        MasteryStatus::Strong
    );
    assert_eq!(best_mastery(None, MasteryStatus::Passed), MasteryStatus::Passed);
}

#[test]
fn diagnostic_summary_prefers_the_kernel_cause_over_a_later_stack_trace() {
    let output = b"VFS: Cannot open root device\nKernel panic - not syncing: VFS: Unable to mount root fs\ndump_stack\n";
    assert_eq!(
        summarise_console(output).as_deref(),
        Some("Kernel panic - not syncing: VFS: Unable to mount root fs")
    );
}

#[test]
fn without_a_marker_the_last_line_is_the_summary() {
    assert_eq!(summarise_console_text("booting\n  \nstill booting  \n").as_deref(), Some("still booting"));
    assert_eq!(summarise_console_text(" \n\n"), None);
    let long = "x".repeat(600);
    assert_eq!(summarise_console_text(&long).map(|s| s.len()), Some(500));
}

#[test]
fn completing_a_lesson_stores_mastery_and_score() {
    let progress = merge_completion(None, 1, "m.01", MasteryStatus::Strong, 1, false, 2_000);
    assert_eq!(progress.status, LessonStatus::Passed);
    assert_eq!(progress.mastery, Some(MasteryStatus::Strong));
    assert_eq!(progress.mastery_score, 85);
    assert_eq!(progress.completed_at, Some(2_000));
}

#[test]
fn revisiting_a_lesson_never_downgrades_mastery() {
    let first = merge_completion(None, 1, "m.01", MasteryStatus::Mastered, 0, false, 1_000);
    let progress = merge_completion(Some(&first), 1, "m.01", MasteryStatus::NeedsReview, 4, true, 2_000);
    assert_eq!(progress.mastery, Some(MasteryStatus::Mastered), "practising must not cost credit");
    assert_eq!(progress.attempts, 2);
    assert_eq!(progress.hints_used, 4);
    // The fact that they looked at the answer is still recorded.
    assert!(progress.solution_revealed);
    // And the original completion time is preserved.
    assert_eq!(progress.completed_at, Some(1_000));
    assert_eq!(progress.last_attempt_at, Some(2_000));
}

#[test]
fn a_lesson_that_only_reaches_needs_review_is_stored_as_such() {
    let progress = merge_completion(None, 1, "m.01", MasteryStatus::NeedsReview, 3, true, 1_000);
    assert_eq!(progress.status, LessonStatus::NeedsReview);
}
