use linux_practice_lab::catalog::{Catalog, LessonFile, ModulePackage};
use linux_practice_lab::commands::{
    build_validation_request, check_task_validators, command_reference, command_to_record,
    completion, exited_message, find_task, first_boot_budget_secs, grade_review_question,
    last_vm_log_line, mode_setting, parse_mode_setting, practice_increment, progress_report,
    retry_with_software, session_settings, setting_prunes_history, with_console_summary,
    HintResponse, SolutionResponse,
};
use linux_practice_lab::dto::{describe_validator, CheckResult, LessonView};
use linux_practice_lab::feedback::shape_feedback;
use linux_practice_lab::hints::{AttemptState, HintOutcome};
use linux_practice_lab::lesson::{
    Demonstration, Lesson, LessonContent, LessonEnvironment, LessonLevel, LessonType, Module,
    NetworkMode, ParamValue, ResetPolicy, ReviewQuestion, ReviewQuestionType, Task, TaskKind,
    Validator,
};
use linux_practice_lab::progress::{LessonProgress, LessonStatus, MasteryStatus};
use linux_practice_lab::progression::{LessonState, ProgressIndex, Progression, ProgressionMode};
use linux_practice_lab::registry::{ParamSpec, Registry, ValidatorSpec};
use linux_practice_lab::state::{attempt_key, not_ready_message, AttemptBook};
use linux_practice_lab::validation::{CheckOutcome, TaskValidation};
use linux_practice_lab::vm::{AccelMode, VmState};
use linux_practice_lab::vm_manager::SessionKind;

fn text(s: &str) -> ParamValue {
    ParamValue::String(s.to_string())
}

fn environment() -> LessonEnvironment {
    LessonEnvironment {
        profile: "filesystem-basic".into(),
        reset_policy: ResetPolicy::PerAttempt,
        network_mode: NetworkMode::Disabled,
        sudo_allowed: false,
        dangerous_allowed: false,
        memory_mb: None,
        namespaces: vec![],
        setup_script: None,
        reset_script: None,
        fixtures: vec![],
    }
}

fn task() -> Task {
    Task {
        id: "task-1".into(),
        kind: TaskKind::Guided,
        instruction: "Create a directory called reports.".into(),
        context: None,
        broken_command: None,
        diagnosis: None,
        validators: vec![Validator::new("directory_exists").with("path", text("/home/student/reports"))],
        hints: vec!["You need a command that creates directories.".into()],
        suggested_solution: Some("mkdir reports".into()),
        known_incorrect_solution: Some("touch reports".into()),
        alternate_solutions: vec!["mkdir -p ~/reports".into()],
        optional: false,
    }
}

fn lesson(lesson_type: LessonType) -> Lesson {
    Lesson {
        schema_version: 1,
        id: "m.01".into(),
        title: "Creating directories".into(),
        level: LessonLevel::Beginner,
        module: "m".into(),
        lesson_type,
        estimated_difficulty: 1,
        estimated_minutes: Some(8),
        prerequisites: vec![],
        concepts: vec!["directories".into()],
        commands: vec!["mkdir".into()],
        environment: environment(),
        content: LessonContent {
            purpose: "Organise files into directories.".into(),
            mental_model: "A directory is a container.".into(),
            syntax: vec!["mkdir DIRECTORY_NAME".into()],
            demonstration: vec![Demonstration {
                command: "mkdir reports".into(),
                explanation: Some("Creates a directory called reports.".into()),
                output: None,
            }],
            explanation_markdown: None,
            summary: None,
        },
        tasks: vec![task()],
        review_questions: vec![ReviewQuestion {
            question_type: ReviewQuestionType::MultipleChoice,
            question: "What does ../ represent?".into(),
            answers: vec!["The parent directory".into(), "The home directory".into()],
            correct_answer: Some(0),
            correct_answers: vec![],
            accepted_answers: vec![],
            explanation: Some("It is the directory above the current one.".into()),
        }],
    }
}

#[test]
fn the_lesson_payload_never_carries_solutions_or_answers() {
    let view = LessonView::from_lesson(&lesson(LessonType::GuidedPractice), ProgressionMode::GuidedPath);
    let rendered = format!("{view:?}");
    assert!(!rendered.contains("touch reports"), "{rendered}");
    assert!(!rendered.contains("mkdir -p ~/reports"), "{rendered}");
    assert!(!rendered.contains("You need a command that creates directories"), "{rendered}");
    assert!(!rendered.contains("It is the directory above the current one"), "{rendered}");
    assert!(!rendered.contains("correct_answer"), "{rendered}");
    assert!(rendered.contains("mkdir reports"), "the demonstration should still be shown");
}

#[test]
fn hint_counts_are_exposed_so_the_ui_can_show_progress() {
    let view = LessonView::from_lesson(&lesson(LessonType::GuidedPractice), ProgressionMode::GuidedPath);
    assert_eq!(view.tasks[0].hint_count, 1);
    assert!(view.hints_available);
}

#[test]
fn assessments_hide_hints_syntax_and_worked_examples() {
    let view = LessonView::from_lesson(&lesson(LessonType::Assessment), ProgressionMode::GuidedPath);
    assert!(!view.hints_available);
    assert_eq!(view.tasks[0].hint_count, 0);
    assert!(view.syntax.is_empty());
    assert!(view.demonstration.is_empty());
}

#[test]
fn assessment_mode_strips_examples_even_from_an_ordinary_lesson() {
    let view = LessonView::from_lesson(&lesson(LessonType::GuidedPractice), ProgressionMode::Assessment);
    assert!(!view.hints_available);
    assert!(view.demonstration.is_empty());
}

#[test]
fn requirements_state_the_goal_not_the_command() {
    let view = LessonView::from_lesson(&lesson(LessonType::GuidedPractice), ProgressionMode::GuidedPath);
    let requirements = &view.tasks[0].requirements;
    assert_eq!(requirements, &vec!["The directory /home/student/reports exists".to_string()]);
    assert!(!requirements.iter().any(|r| r.contains("mkdir")));
}

#[test]
fn review_questions_keep_their_options_but_lose_the_key() {
    let view = LessonView::from_lesson(&lesson(LessonType::GuidedPractice), ProgressionMode::GuidedPath);
    assert_eq!(view.review_questions[0].answers.len(), 2);
    assert_eq!(view.review_questions[0].index, 0);
    let rendered = format!("{:?}", view.review_questions);
    assert!(!rendered.contains("explanation"), "{rendered}");
}

#[test]
fn unrecognised_validators_are_omitted_rather_than_shown_as_raw_tags() {
    let validator = Validator::new("apt_cache_updated");
    assert_eq!(describe_validator(&validator), None);
}

#[test]
fn requirements_name_their_parameters() {
    let link = Validator::new("hard_link_exists")
        .with("path", text("/a"))
        .with("linkTo", text("/b"));
    assert_eq!(describe_validator(&link).as_deref(), Some("/a and /b are hard links to the same file"));
    let port = Validator::new("port_listening").with("port", ParamValue::Integer(8080));
    assert_eq!(describe_validator(&port).as_deref(), Some("Something is listening on port 8080"));
    let bare = Validator::new("port_listening");
    assert_eq!(describe_validator(&bare).as_deref(), Some("Something is listening on port 0"));
    let exit = Validator::new("script_exit_code").with("path", text("/s.sh")).with("exitCode", ParamValue::Integer(-1));
    assert_eq!(describe_validator(&exit).as_deref(), Some("/s.sh exits with -1"));
    let unit = Validator::new("service_enabled").with("unit", text("nginx.service"));
    assert_eq!(describe_validator(&unit).as_deref(), Some("nginx.service starts at boot"));
}

#[test]
fn a_check_result_starts_incomplete() {
    let validation = TaskValidation::from_outcomes("l", "task-1", vec![CheckOutcome::pass("file_exists", "ok")]);
    let feedback = shape_feedback(&validation);
    let result = CheckResult::new(validation.clone(), feedback.clone());
    assert_eq!(result.headline, "Correct.");
    assert!(!result.lesson_complete);
    assert_eq!(result.mastery, None);
    assert_eq!(result.validation, validation);
}

fn fixture_lesson(module: &str, id: &str, prerequisites: &[&str]) -> Lesson {
    let mut l = lesson(LessonType::GuidedPractice);
    l.id = id.to_string();
    l.title = format!("Fixture lesson {id}");
    l.module = module.to_string();
    l.prerequisites = prerequisites.iter().map(|p| p.to_string()).collect();
    l.content.syntax = vec![];
    l.content.demonstration = vec![];
    l.review_questions = vec![];
    l
}

fn fixture_module(id: &str, number: u32, lessons: &[&str], pack: &str) -> Module {
    Module {
        schema_version: 1,
        id: id.to_string(),
        number,
        title: format!("Fixture module {id}"),
        level: LessonLevel::Beginner,
        summary: "A fixture module used by the automated tests only.".into(),
        outcomes: vec![],
        pack: pack.to_string(),
        lessons: lessons.iter().map(|l| l.to_string()).collect(),
    }
}

fn package(module: Module, lessons: Vec<Lesson>) -> ModulePackage {
    ModulePackage {
        lessons: lessons
            .into_iter()
            .map(|l| {
                Ok(LessonFile {
                    listed_id: l.id.clone(),
                    path: format!("{}/{}/{}.json", module.pack, module.id, l.id),
                    lesson: l,
                })
            })
            .collect(),
        module,
    }
}

fn spec(params: Vec<(&str, bool)>) -> ValidatorSpec {
    ValidatorSpec {
        category: "filesystem".into(),
        implemented: true,
        failure_category: "wrong_path".into(),
        summary: String::new(),
        params: params
            .into_iter()
            .map(|(name, required)| {
                (
                    name.to_string(),
                    ParamSpec { param_type: "path".into(), required, values: vec![], summary: None },
                )
            })
            .collect(),
        requires_one_of: vec![],
    }
}

fn registry() -> Registry {
    Registry {
        schema_version: 1,
        failure_categories: vec![],
        common_params: vec![],
        validators: vec![("directory_exists".into(), spec(vec![("path", true)]))],
    }
}

fn chain() -> Catalog {
    let packages = vec![package(
        fixture_module("m", 0, &["m.01", "m.02", "m.03"], "core"),
        vec![
            fixture_lesson("m", "m.01", &[]),
            fixture_lesson("m", "m.02", &["m.01"]),
            fixture_lesson("m", "m.03", &["m.02"]),
        ],
    )];
    Catalog::assemble("/lessons", packages, &registry()).unwrap()
}

#[test]
fn loads_modules_in_teaching_order_with_optional_packs_last() {
    let packages = vec![
        package(fixture_module("second", 1, &["second.01"], "core"), vec![fixture_lesson("second", "second.01", &[])]),
        package(fixture_module("first", 0, &["first.01"], "core"), vec![fixture_lesson("first", "first.01", &[])]),
        package(fixture_module("extra", 0, &["extra.01"], "optional"), vec![fixture_lesson("extra", "extra.01", &[])]),
    ];
    let catalog = Catalog::assemble("/lessons", packages, &registry()).unwrap();
    let order: Vec<&str> = catalog.modules().iter().map(|m| m.id.as_str()).collect();
    assert_eq!(order, vec!["first", "second", "extra"]);
    assert_eq!(catalog.core_lesson_ids(), &vec!["first.01".to_string(), "second.01".to_string()]);
    assert_eq!(catalog.lesson_count(), 3);
}

#[test]
fn a_missing_prerequisite_stops_the_load() {
    let packages = vec![package(fixture_module("m", 0, &["m.01"], "core"), vec![fixture_lesson("m", "m.01", &["m.99"])])];
    let err = Catalog::assemble("/lessons", packages, &registry()).unwrap_err();
    assert!(err.contains("m.99 does not exist"), "{err}");
}

#[test]
fn a_prerequisite_cycle_stops_the_load() {
    let packages = vec![package(
        fixture_module("m", 0, &["m.01", "m.02"], "core"),
        vec![fixture_lesson("m", "m.01", &["m.02"]), fixture_lesson("m", "m.02", &["m.01"])],
    )];
    let err = Catalog::assemble("/lessons", packages, &registry()).unwrap_err();
    assert!(err.contains("prerequisite cycle"), "{err}");
    assert!(err.contains("m.01: prerequisite cycle: m.01 -> m.02 -> m.01"), "{err}");
}

#[test]
fn an_unknown_validator_stops_the_load() {
    let mut bad = fixture_lesson("m", "m.01", &[]);
    bad.tasks[0].validators = vec![Validator::new("directory_exists_typo").with("path", text("/home/student/reports"))];
    let packages = vec![package(fixture_module("m", 0, &["m.01"], "core"), vec![bad])];
    let err = Catalog::assemble("/lessons", packages, &registry()).unwrap_err();
    assert!(err.contains("unknown validator"), "{err}");
    assert!(err.contains("m.01/task-1"), "{err}");
}

#[test]
fn an_id_that_disagrees_with_its_filename_stops_the_load() {
    let module = fixture_module("m", 0, &["m.01"], "core");
    let packages = vec![ModulePackage {
        module,
        lessons: vec![Ok(LessonFile {
            listed_id: "m.01".into(),
            path: "core/m/m.01.json".into(),
            lesson: fixture_lesson("m", "m.99", &[]),
        })],
    }];
    let err = Catalog::assemble("/lessons", packages, &registry()).unwrap_err();
    assert!(err.contains("declares id m.99"), "{err}");
}

#[test]
fn an_empty_lessons_root_is_reported_as_an_incomplete_installation() {
    let err = Catalog::assemble("/lessons", vec![], &registry()).unwrap_err();
    assert!(err.contains("installation may be incomplete"), "{err}");
}

#[test]
fn an_unreadable_lesson_file_stops_the_load_with_its_reason() {
    let packages = vec![ModulePackage {
        module: fixture_module("m", 0, &["m.01"], "core"),
        lessons: vec![Err("module m lists lesson m.01: could not parse core/m/m.01.json".to_string())],
    }];
    let err = Catalog::assemble("/lessons", packages, &registry()).unwrap_err();
    assert_eq!(err, "module m lists lesson m.01: could not parse core/m/m.01.json");
}

#[test]
fn a_duplicate_lesson_id_and_an_empty_module_are_refused() {
    let packages = vec![
        package(fixture_module("a", 0, &["x.01"], "core"), vec![fixture_lesson("a", "x.01", &[])]),
        package(fixture_module("b", 1, &["x.01"], "core"), vec![fixture_lesson("b", "x.01", &[])]),
    ];
    let err = Catalog::assemble("/lessons", packages, &registry()).unwrap_err();
    assert_eq!(err, "duplicate lesson id x.01");

    let packages = vec![
        package(fixture_module("a", 0, &["a.01"], "core"), vec![fixture_lesson("a", "a.01", &[])]),
        package(fixture_module("empty", 1, &[], "core"), vec![]),
    ];
    let err = Catalog::assemble("/lessons", packages, &registry()).unwrap_err();
    assert_eq!(err, "the lesson catalogue is not consistent:\n  empty: module lists no lessons");
}

#[test]
fn commands_are_indexed_for_the_reference() {
    let catalog = chain();
    assert!(catalog.all_commands().contains(&"mkdir".to_string()));
    assert_eq!(catalog.lessons_for_command("mkdir").len(), 3);
    assert_eq!(catalog.lessons_for_command("nftables").len(), 0);
    let reference = command_reference(&catalog);
    assert_eq!(reference.len(), 1);
    assert_eq!(reference[0].command, "mkdir");
    assert_eq!(reference[0].lessons[0], ("m.01".to_string(), "Fixture lesson m.01".to_string()));
}

#[test]
fn authors_are_warned_about_lessons_without_commands() {
    let mut quiet = fixture_lesson("m", "m.01", &[]);
    quiet.commands = vec![];
    let packages = vec![package(fixture_module("m", 0, &["m.01"], "core"), vec![quiet])];
    let catalog = Catalog::assemble("/lessons", packages, &registry()).unwrap();
    assert_eq!(
        catalog.warnings(),
        &vec!["m.01 lists no commands, so it will not appear in the command reference".to_string()]
    );
    assert!(catalog.try_lesson("m.02").unwrap_err().contains("no lesson with id m.02"));
}

#[test]
fn guided_path_locks_a_lesson_whose_prerequisite_is_unfinished() {
    let catalog = chain();
    let p = Progression::new(&catalog, ProgressionMode::GuidedPath);
    let progress = ProgressIndex::new();
    assert!(p.availability("m.01", &progress).unlocked);
    let second = p.availability("m.02", &progress);
    assert!(!second.unlocked);
    assert_eq!(second.missing_prerequisites, vec!["m.01"]);
}

#[test]
fn open_library_warns_but_never_blocks() {
    let catalog = chain();
    let p = Progression::new(&catalog, ProgressionMode::OpenLibrary);
    let availability = p.availability("m.03", &ProgressIndex::new());
    assert!(availability.unlocked);
    assert!(availability.warning().unwrap().contains("You can still open it"));
}

#[test]
fn passing_a_prerequisite_unlocks_the_next_lesson() {
    let catalog = chain();
    let p = Progression::new(&catalog, ProgressionMode::GuidedPath);
    let mut progress = ProgressIndex::new();
    progress.insert("m.01".into(), LessonState::passed(MasteryStatus::Mastered));
    assert!(p.availability("m.02", &progress).unlocked);
    assert!(!p.availability("m.03", &progress).unlocked);
}

#[test]
fn a_lesson_needing_review_still_counts_as_passed_for_unlocking() {
    let catalog = chain();
    let p = Progression::new(&catalog, ProgressionMode::GuidedPath);
    let mut progress = ProgressIndex::new();
    progress.insert("m.01".into(), LessonState::passed(MasteryStatus::NeedsReview));
    assert!(p.availability("m.02", &progress).unlocked);
}

#[test]
fn next_lesson_is_the_first_unfinished_one() {
    let catalog = chain();
    let p = Progression::new(&catalog, ProgressionMode::GuidedPath);
    let mut progress = ProgressIndex::new();
    assert_eq!(p.next_lesson(&progress), Some("m.01"));
    progress.insert("m.01".into(), LessonState::passed(MasteryStatus::Strong));
    assert_eq!(p.next_lesson(&progress), Some("m.02"));
}

#[test]
fn next_lesson_is_none_once_the_course_is_finished() {
    let catalog = chain();
    let p = Progression::new(&catalog, ProgressionMode::GuidedPath);
    let mut progress = ProgressIndex::new();
    for id in ["m.01", "m.02", "m.03"] {
        progress.insert(id.into(), LessonState::passed(MasteryStatus::Mastered));
    }
    assert_eq!(p.next_lesson(&progress), None);
}

#[test]
fn review_recommendations_put_the_weakest_first() {
    let catalog = chain();
    let p = Progression::new(&catalog, ProgressionMode::GuidedPath);
    let mut progress = ProgressIndex::new();
    progress.insert("m.01".into(), LessonState::passed(MasteryStatus::NeedsReview));
    progress.insert(
        "m.02".into(),
        LessonState { status: LessonStatus::NeedsReview, mastery: Some(MasteryStatus::ReviewRequired) },
    );
    progress.insert("m.03".into(), LessonState::passed(MasteryStatus::Mastered));
    assert_eq!(p.review_recommendations(&progress, 5), vec!["m.02", "m.01"]);
    assert_eq!(p.review_recommendations(&progress, 1), vec!["m.02"]);
}

#[test]
fn mastery_percent_averages_only_attempted_lessons() {
    let catalog = chain();
    let p = Progression::new(&catalog, ProgressionMode::GuidedPath);
    let mut progress = ProgressIndex::new();
    progress.insert("m.01".into(), LessonState::passed(MasteryStatus::Mastered));
    progress.insert("m.02".into(), LessonState::passed(MasteryStatus::Passed));
    assert_eq!(p.mastery_percent(&progress), 85);
    assert_eq!(p.completed_core_lessons(&progress), 2);
}

#[test]
fn mastery_percent_is_zero_before_anything_is_attempted() {
    let catalog = chain();
    let p = Progression::new(&catalog, ProgressionMode::GuidedPath);
    assert_eq!(p.mastery_percent(&ProgressIndex::new()), 0);
}

#[test]
fn a_later_record_for_a_lesson_replaces_the_earlier_one() {
    let mut progress = ProgressIndex::new();
    progress.insert("m.01".into(), LessonState::passed(MasteryStatus::Passed));
    progress.insert("m.01".into(), LessonState { status: LessonStatus::InProgress, mastery: None });
    assert_eq!(progress.get("m.01").unwrap().status, LessonStatus::InProgress);
    assert!(!progress.is_passed("m.01"));
    assert!(progress.get("m.02").is_none());
}

#[test]
fn valid_tasks_pass_the_registry_check() {
    assert!(check_task_validators(&task(), &registry()).is_ok());
}

#[test]
fn invalid_tasks_are_rejected_with_the_task_id_in_the_message() {
    let mut t = task();
    t.validators = vec![Validator::new("directory_exists")];
    let err = check_task_validators(&t, &registry()).unwrap_err();
    assert!(err.contains("task-1"), "{err}");
    assert!(err.contains("requires parameter 'path'"), "{err}");
}

#[test]
fn a_validation_request_runs_as_the_learner_in_the_lesson_directory() {
    let l = lesson(LessonType::GuidedPractice);
    let request = build_validation_request(&l, &l.tasks[0], 1_700_000_000);
    assert_eq!(request.subject_user, "student");
    assert_eq!(request.lesson_root.as_deref(), Some("/opt/linuxlab/lessons/m.01"));
    assert_eq!(request.attempt_started_at, Some(1_700_000_000));
    assert_eq!(request.validators, l.tasks[0].validators);
}

#[test]
fn an_unknown_task_is_named_in_the_error() {
    let l = lesson(LessonType::GuidedPractice);
    assert_eq!(find_task(&l, "task-1").unwrap().id, "task-1");
    assert_eq!(find_task(&l, "task-9").unwrap_err(), "lesson m.01 has no task task-9");
}

#[test]
fn a_lesson_completes_when_every_required_task_has_passed() {
    let l = lesson(LessonType::GuidedPractice);
    let mut attempt = AttemptState::new("m.01", "task-1");
    assert!(completion(&l, &[attempt.clone()]).is_none());
    attempt.reveal_solution(true);
    attempt.record_pass();
    let done = completion(&l, &[attempt]).unwrap();
    assert_eq!(done.mastery, MasteryStatus::NeedsReview);
    assert!(done.solution_revealed);
    assert_eq!(done.total_hints, 0);
}

#[test]
fn review_answers_are_graded_by_question_type() {
    let mut q = lesson(LessonType::GuidedPractice).review_questions[0].clone();
    assert!(grade_review_question(&q, Some(vec![0]), None).correct);
    assert!(!grade_review_question(&q, Some(vec![1]), None).correct);
    assert!(!grade_review_question(&q, None, None).correct);
    let grade = grade_review_question(&q, Some(vec![1]), None);
    assert_eq!(grade.explanation.as_deref(), Some("It is the directory above the current one."));

    q.question_type = ReviewQuestionType::MultipleSelect;
    q.correct_answers = vec![2, 0];
    assert!(grade_review_question(&q, Some(vec![0, 2, 2]), None).correct);
    assert!(!grade_review_question(&q, Some(vec![0]), None).correct);
    assert!(!grade_review_question(&q, Some(vec![0, 1, 2]), None).correct);

    q.question_type = ReviewQuestionType::ShortAnswer;
    q.accepted_answers = vec!["cd ..".into()];
    assert!(grade_review_question(&q, None, Some("  CD   .. ")).correct);
    assert!(!grade_review_question(&q, None, None).correct);
}

#[test]
fn hint_and_solution_responses_follow_the_attempt() {
    let t = task();
    let mut attempt = AttemptState::new("m.01", "task-1");
    match HintResponse::from_outcome(attempt.reveal_next_hint(&t, true)) {
        HintResponse::Hint { index, remaining, solution_next, .. } => {
            assert_eq!(index, 0);
            assert_eq!(remaining, 0);
            assert!(solution_next);
        }
        other => panic!("expected a hint, got {other:?}"),
    }
    assert_eq!(HintResponse::from_outcome(HintOutcome::SolutionAvailable), HintResponse::SolutionAvailable);
    let shown = SolutionResponse::for_task(None, &t);
    assert_eq!(shown.solution.as_deref(), Some("mkdir reports"));
    let refused = SolutionResponse::for_task(Some("not in an assessment"), &t);
    assert_eq!(refused.solution, None);
    assert_eq!(refused.reason.as_deref(), Some("not in an assessment"));
}

#[test]
fn sessions_boot_the_lesson_environment_or_offline_free_practice() {
    let catalog = chain();
    let (kind, net, memory) = session_settings(&catalog, None).unwrap();
    assert_eq!(kind, SessionKind::FreePractice);
    assert_eq!(net, NetworkMode::Disabled);
    assert_eq!(memory, None);
    let (kind, _, _) = session_settings(&catalog, Some("m.02")).unwrap();
    assert_eq!(kind, SessionKind::Lesson { lesson_id: "m.02".into() });
    assert!(session_settings(&catalog, Some("nope")).is_err());
}

#[test]
fn a_hardware_boot_gets_a_short_budget_and_one_software_retry() {
    assert_eq!(first_boot_budget_secs(AccelMode::Whpx), 30);
    assert_eq!(first_boot_budget_secs(AccelMode::Tcg), 120);
    assert!(retry_with_software(false, AccelMode::Whpx));
    assert!(!retry_with_software(true, AccelMode::Whpx));
    assert!(!retry_with_software(false, AccelMode::Tcg));
}

#[test]
fn vm_log_summary_skips_empty_assertion_markers() {
    assert_eq!(last_vm_log_line("useful failure detail\n\n**\n").as_deref(), Some("useful failure detail"));
    assert_eq!(last_vm_log_line("\n  \n"), None);
}

#[test]
fn boot_failure_messages_carry_the_log_and_console() {
    assert_eq!(
        exited_message("exit status: 1", Some("could not open disk")),
        "Linux stopped before it finished starting (exit status: 1). The VM log says: could not open disk Try Check practice environment; if the problem remains, reinstall the runtime."
    );
    assert_eq!(with_console_summary("timed out.", Some("Kernel panic")), "timed out. Linux console: Kernel panic");
    assert_eq!(with_console_summary("timed out.", None), "timed out.");
}

#[test]
fn small_settings_rules() {
    assert_eq!(command_to_record("  ls -la  ").as_deref(), Some("ls -la"));
    assert_eq!(command_to_record("   "), None);
    assert_eq!(practice_increment(-5), 0);
    assert_eq!(practice_increment(90), 90);
    assert_eq!(practice_increment(99_999), 3600);
    assert!(setting_prunes_history("history.retention"));
    assert!(!setting_prunes_history("progression.mode"));
    for mode in [ProgressionMode::GuidedPath, ProgressionMode::OpenLibrary, ProgressionMode::Assessment] {
        assert_eq!(parse_mode_setting(mode_setting(mode)), Some(mode));
    }
    assert_eq!(parse_mode_setting("wat"), None);
}

fn record(id: &str, status: LessonStatus, mastery: Option<MasteryStatus>, hints: u32) -> LessonProgress {
    LessonProgress {
        profile_id: 1,
        lesson_id: id.to_string(),
        status,
        attempts: 1,
        hints_used: hints,
        solution_revealed: false,
        mastery,
        mastery_score: 0,
        first_started_at: None,
        completed_at: None,
        last_attempt_at: None,
    }
}

#[test]
fn the_progress_report_counts_and_lists_commands_once() {
    let catalog = chain();
    let lessons = vec![
        record("m.01", LessonStatus::Passed, Some(MasteryStatus::Mastered), 0),
        record("m.02", LessonStatus::NeedsReview, Some(MasteryStatus::NeedsReview), 3),
        record("m.03", LessonStatus::Passed, Some(MasteryStatus::Strong), 1),
    ];
    let report = progress_report(&lessons, vec![], vec![], 42, &catalog);
    assert_eq!(report.lessons_attempted, 3);
    assert_eq!(report.lessons_passed, 3);
    assert_eq!(report.lessons_mastered, 1);
    assert_eq!(report.needs_review, 1);
    assert_eq!(report.hints_used, 4);
    assert_eq!(report.commands_mastered, vec!["mkdir"]);
    assert_eq!(report.practice_seconds, 42);
}

#[test]
fn attempt_keys_are_scoped_per_lesson_and_task() {
    assert_eq!(attempt_key("filesystem.navigation.04", "task-1"), "filesystem.navigation.04/task-1");
    assert_ne!(attempt_key("a", "task-1"), attempt_key("b", "task-1"));
}

#[test]
fn the_attempt_book_keeps_one_attempt_per_task() {
    let t = task();
    let mut book = AttemptBook::new();
    book.reveal_next_hint("m.01", "task-1", &t, true);
    book.record_pass("m.01", "task-1");
    book.record_pass("m.02", "task-1");
    let attempts = book.lesson_attempts("m.01");
    assert_eq!(attempts.len(), 1);
    assert_eq!(attempts[0].hints_revealed, 1);
    assert!(attempts[0].passed);
    book.clear_lesson("m.01");
    assert!(book.lesson_attempts("m.01").is_empty());
    assert_eq!(book.lesson_attempts("m.02").len(), 1);
}

#[test]
fn commands_wait_until_linux_is_ready() {
    assert_eq!(not_ready_message(VmState::Ready), None);
    assert_eq!(not_ready_message(VmState::Starting), Some("Linux is still starting."));
    assert_eq!(not_ready_message(VmState::Paused), Some("Linux is paused. Resume it to carry on."));
}

#[test]
fn error_messages_include_the_cause() {
    let err = anyhow::Error::msg("could not create the overlay").context("starting Free Practice failed");
    let chain: Vec<String> = err.chain().map(|cause| cause.to_string()).collect();
    let message = linux_practice_lab::commands::to_message(&chain);
    assert!(message.contains("starting Free Practice failed"));
    assert!(message.contains("could not create the overlay"));
    assert_eq!(message, "starting Free Practice failed: could not create the overlay");
}

#[test]
fn a_failed_check_is_recorded_with_its_category_and_a_pass_completes_the_lesson() {
    let mut book = AttemptBook::new();
    let mut mistake = task();
    mistake.diagnosis = Some("The directory was missing.".into());
    let mut l = lesson(LessonType::GuidedPractice);
    l.tasks = vec![mistake.clone()];
    let failed = TaskValidation::from_outcomes(
        "m.01",
        "task-1",
        vec![CheckOutcome::fail("directory_exists", "missing", linux_practice_lab::validation::FailureCategory::WrongPath)],
    );
    let (result, done) = linux_practice_lab::commands::record_check(&mut book, &l, &mistake, failed);
    assert!(!result.lesson_complete);
    assert!(done.is_none());
    assert_eq!(result.diagnosis, None);
    let attempts = book.lesson_attempts("m.01");
    assert_eq!(attempts.len(), 1);
    assert_eq!(attempts[0].failed_checks, 1);

    let passed = TaskValidation::from_outcomes("m.01", "task-1", vec![CheckOutcome::pass("directory_exists", "ok")]);
    let (result, done) = linux_practice_lab::commands::record_check(&mut book, &l, &mistake, passed);
    assert!(result.lesson_complete);
    assert_eq!(result.diagnosis, Some("The directory was missing.".to_string()));
    assert!(done.is_some());
    assert_eq!(result.mastery, None);
}

#[test]
fn an_assembled_catalogue_has_no_integrity_issues() {
    let catalog = chain();
    assert!(catalog.integrity_issues(&registry()).is_empty());
}
