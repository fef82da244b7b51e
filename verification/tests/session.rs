use dispatch::orchestrator::apply::{ApplyOutcome, ApplyReport};
use dispatch::presenter::editor::{Key, KeyCode, KeyKind, Rect};
use dispatch::presenter::inspection::{
    action_key, begin_inspection, compact_patch, decision_layout, details_key, entry_row, first_row, in_summary, inspect_hint, inspect_key, keep_selection, no_viewer, path_label, plain_command, plain_decision, plain_file, plain_list, plain_prompt, plain_start, rename_note, short_preview, shows_preview, status_line, tail_clip, tiny_preview, title, typed_line, viewer_notice, visible_entries, InspectStart, InspectStep, Page, ReviewView,
};
use dispatch::presenter::session::{
    after_auto_apply, after_decision, answer_prompt, answer_step, check_step, goal_step,
    is_final_update, is_permission, needs_setup, permission_prompt, project_line,
    question_prompt, received_text, review_action, review_notice, session_command,
    session_prompt, setup_text, shows_result, stopped_text, wants_details, work_input, AfterApply,
    Answer, CheckStep, GoalStep, ProjectFacts, ReviewAction, SessionCommand, Work, WorkInput,
};
use dispatch::presenter::{projection, Input};
use dispatch::record::{
    ApplicationState, CheckpointReport, Clarification, Decision, GoalExecution, LifecycleState,
    QuestionState, ReviewState, RunMode, RunOutcome, RunPhase, RunRecord, RunStatus, Validity,
    VerificationState, WaitingOn, WorkResult,
};
use dispatch::reviewer::{index_patch, preview, ChangeEntry, ChangeKind};

fn key(code: KeyCode) -> Key {
    Key { code, kind: KeyKind::Press, control: false, shift: false, alt: false }
}

fn control(c: char) -> Key {
    Key { control: true, ..key(KeyCode::Char(c)) }
}

fn run() -> RunRecord {
    RunRecord {
        id: "01TEST".into(),
        task: "Fix cache".into(),
        exact_prompt: "Fix cache".into(),
        source_path: "/source".into(),
        source_fingerprint: "baseline".into(),
        baseline_path: "/baseline".into(),
        baseline_commit: "abc".into(),
        status: RunStatus::Running,
        mode: RunMode::Native,
        state_revision: 3,
        outcome: RunOutcome {
            lifecycle: LifecycleState::Finished,
            work_result: WorkResult::Ready,
            verification: VerificationState::Passed,
            review: ReviewState::Pending,
            application: ApplicationState::NotApplied,
            phase: RunPhase::Reviewing,
            waiting_on: WaitingOn::Nothing,
            applied_by: None,
        },
        created_at: 0,
        completed_at: None,
        execution_backend: "local".into(),
        unsafe_local: false,
        baseline_checks: vec![],
        candidates: vec![],
        attempts: vec![],
        allocation: None,
        coherence: None,
        applied_candidate: None,
        attachment: None,
        capacity: None,
        admission: None,
        phase3: None,
    }
}

fn waiting(deadline_at: i64) -> RunRecord {
    let mut r = run();
    r.phase3 = Some(GoalExecution {
        owner_uid: 1,
        deadline_at,
        max_invocations: 2,
        no_retry: false,
        fixed_harness: None,
        fixed_model: None,
        fixed_effort: None,
        failure: None,
        final_attempt_id: None,
        contributing_attempts: vec![],
        provenance: "test".into(),
        supervisor: None,
        questions: vec![Clarification {
            id: "q".into(),
            run_id: "01TEST".into(),
            attempt_id: "attempt".into(),
            generation: 2,
            revision: 4,
            report: CheckpointReport {
                question: "Which cache?".into(),
                choices: vec![],
                category: None,
            },
            state: QuestionState::Pending,
            answer: None,
            created_at: 0,
            resolved_at: None,
            actor_uid: None,
            actor: None,
        }],
        planning: None,
    });
    r
}

#[test]
fn input_during_work_stops_it_or_toggles_the_mode() {
    assert_eq!(work_input(Some(control('c'))), WorkInput::Interrupt);
    assert_eq!(work_input(Some(control('d'))), WorkInput::Close);
    assert_eq!(work_input(Some(key(KeyCode::BackTab))), WorkInput::Toggle);
    assert_eq!(work_input(Some(key(KeyCode::Char('y')))), WorkInput::Other);
    assert_eq!(work_input(None), WorkInput::Hangup);
    let mut work = Work::new(false, false);
    assert_eq!(work.body, "Preparing…");
    work.receive(WorkInput::Toggle);
    assert!(work.auto_apply && !work.cancelled);
    work.show(&run(), None, 80, true, "Launches");
    assert!(work.body.ends_with("\nLaunches"));
    assert!(work.announce(true, "Working"));
    assert!(!work.announce(true, "Working"));
    assert!(!work.announce(true, "Ready for review"));
    assert!(!work.announce(false, "Verifying"));
    work.receive(WorkInput::Interrupt);
    assert!(work.cancelled && work.input_open);
    work.show(&run(), None, 80, true, "Launches");
    assert_eq!(work.body, "Cancelling; waiting for process cleanup…");
    work.receive(WorkInput::Close);
    assert!(work.closed && !work.input_open);
    work.receive(WorkInput::Hangup);
    assert_eq!(work.body, "Terminal closed; waiting for process cleanup…");
    assert!(!shows_result(&run()));
    assert!(shows_result(&waiting(0)));
    assert!(is_final_update("01TEST", 3, &run()));
    assert!(!is_final_update("01TEST", 2, &run()));
}

#[test]
fn commands_to_a_session_are_not_goals() {
    let submit = |text: &str| Input::Submit(text.into());
    assert_eq!(session_command(submit(" /resources "), false, false), SessionCommand::Resources);
    assert_eq!(session_command(submit("/checks"), false, false), SessionCommand::Checks);
    assert_eq!(
        session_command(submit("/auto-apply"), false, false),
        SessionCommand::SetAutoApply(true)
    );
    assert_eq!(session_command(submit("/auto-apply off"), false, false), SessionCommand::Again);
    assert_eq!(session_command(submit("i"), true, false), SessionCommand::Details);
    assert_eq!(session_command(submit("i"), false, false), SessionCommand::Goal("i".into()));
    assert_eq!(session_command(submit("  "), false, false), SessionCommand::Again);
    assert_eq!(session_command(Input::Cancel, false, false), SessionCommand::Leave);
    assert_eq!(session_command(Input::Eof, false, false), SessionCommand::Leave);
    assert_eq!(session_command(Input::Changed, false, false), SessionCommand::Again);
    assert!(session_prompt(true, false, true).starts_with("Next goal: What"));
    assert!(session_prompt(false, true, true).contains("accomplish? (auto-apply on)"));
    assert_eq!(project_line(&None), "Project context unavailable · local source");
    let facts = |checkout, branch: Option<&str>| {
        Some(ProjectFacts { checkout, branch: branch.map(|b| b.as_bytes().to_vec()) })
    };
    assert_eq!(project_line(&facts(false, None)), "Plain directory · local source");
    assert_eq!(project_line(&facts(true, None)), "Git checkout · detached HEAD");
    assert_eq!(project_line(&facts(true, Some("ma\x1b[1min\n"))), "Git checkout · branch main");
}

#[test]
fn goals_need_setup_permission_and_say_what_happened() {
    assert!(needs_setup(true, &vec![]));
    assert!(needs_setup(false, &vec![]));
    assert!(is_permission(&Input::Submit("YES".into())));
    assert!(is_permission(&Input::Submit("y".into())));
    assert!(!is_permission(&Input::Submit(" y".into())));
    assert!(!is_permission(&Input::Cancel));
    assert_eq!(check_step(1, 0), CheckStep::Go);
    assert_eq!(check_step(0, 0), CheckStep::Tell);
    assert_eq!(check_step(0, 2), CheckStep::Choose);
    assert_eq!(received_text("x", 80, true, true), ">> Goal  x\n\nGoal received. Preparing…");
    assert_eq!(setup_text("x", 80), "Goal  x\nSetup needed · your goal is preserved.");
    assert!(permission_prompt("x", 80).ends_with("Allow this goal? [y/N]"));
    assert_eq!(
        stopped_text("broken", ""),
        "Stopped: broken\nInspect the retained result with dispatch status or history."
    );
    assert_eq!(
        stopped_text("broken", "draft"),
        "Stopped: broken\nGoal preserved below; edit or explicitly submit again."
    );
}

#[test]
fn the_mode_at_the_end_of_work_decides() {
    assert_eq!(goal_step(&run(), true), GoalStep::AutoApply);
    assert_eq!(goal_step(&run(), false), GoalStep::Review);
    let mut failed = run();
    failed.outcome.work_result = WorkResult::Failed;
    assert_eq!(goal_step(&failed, true), GoalStep::Stopped);
    match goal_step(&waiting(0), true) {
        GoalStep::Ask(command) => {
            assert_eq!(command.question_id, "q");
            assert_eq!((command.revision, command.generation), (4, 2));
        }
        other => panic!("{other:?}"),
    }
    assert_eq!(
        question_prompt("L", &waiting(1_789_603_200_000_000)),
        Some(
            "L\nDeadline 2026-09-17 00:00:00 UTC · budget does not reset.\nYour answer (Ctrl+C cancels this goal)"
                .to_string()
        )
    );
    assert_eq!(question_prompt("L", &waiting(i64::MAX)), None);
    assert_eq!(
        question_prompt("L", &run()),
        Some(answer_prompt("L", None))
    );
    assert_eq!(answer_step(Input::Submit("disk".into())), Answer::Give("disk".into()));
    assert_eq!(answer_step(Input::Submit(" ".into())), Answer::AskAgain);
    assert_eq!(answer_step(Input::Cancel), Answer::Cancel);
    assert!(wants_details(&Input::Submit(" details ".into())));
    assert!(!wants_details(&Input::Submit("n".into())));
}

#[test]
fn only_an_application_ends_a_goal_without_a_person() {
    let validity = Validity {
        decision: Decision::Stop,
        world_changed: true,
        world_digest: String::new(),
        changed_files: 1,
        evaluated_at: 0,
        reasons: vec![],
    };
    let applied = ApplyOutcome::Applied {
        report: ApplyReport { candidate_label: "A".into(), files_changed: 1 },
        validity: Some(validity.clone()),
    };
    let expected = format!(
        "{}\nAuto-applied · review not performed\nCoherence: STOP — this patch is already in the source",
        projection(&run(), None, 77, false)
    );
    assert_eq!(after_auto_apply(&applied, &run(), 80, false), AfterApply::Done(expected));
    let review = |outcome: ApplyOutcome| match after_auto_apply(&outcome, &run(), 80, false) {
        AfterApply::Review(text) => text,
        other => panic!("{other:?}"),
    };
    assert_eq!(
        review(ApplyOutcome::Skipped { reason: "verification_not_configured".into() }),
        "Auto-apply skipped: no checks configured"
    );
    assert_eq!(
        review(ApplyOutcome::Skipped { reason: "other".into() }),
        "Auto-apply skipped: other"
    );
    assert_eq!(
        review(ApplyOutcome::Blocked { reason: "policy".into(), validity: None }),
        "Auto-apply blocked: policy"
    );
    assert_eq!(
        review(ApplyOutcome::Blocked { reason: "policy".into(), validity: Some(validity) }),
        "Auto-apply blocked: Coherence: STOP — this patch is already in the source"
    );
    assert_eq!(
        review(ApplyOutcome::Failed { error: "no\nspace".into() }),
        "Auto-apply failed: no space"
    );
}

#[test]
fn reviews_are_recorded_only_by_their_words() {
    assert_eq!(review_action("", false), ReviewAction::Inspect { external: false });
    assert_eq!(review_action(" E ", false), ReviewAction::Inspect { external: true });
    assert_eq!(review_action("editor", true), ReviewAction::NoViewer);
    assert_eq!(review_action("i", false), ReviewAction::Details);
    assert_eq!(
        review_action("A", false),
        ReviewAction::Decide { accept: true, then_auto_apply: false }
    );
    assert_eq!(
        review_action("aa", false),
        ReviewAction::Decide { accept: true, then_auto_apply: true }
    );
    assert_eq!(
        review_action("reject", false),
        ReviewAction::Decide { accept: false, then_auto_apply: false }
    );
    assert_eq!(review_action("next", false), ReviewAction::Leave);
    assert_eq!(review_action("ok", false), ReviewAction::Unknown);
    assert!(review_notice(ReviewAction::Unknown).starts_with("Choose Review changes"));
    assert!(review_notice(ReviewAction::NoViewer).starts_with("External viewers"));
    let mut accepted = run();
    accepted.outcome.review = ReviewState::Accepted;
    assert_eq!(after_decision(&accepted, true, true, false), (true, true));
    assert_eq!(after_decision(&run(), true, false, false), (false, false));
    assert_eq!(after_decision(&accepted, false, true, true), (true, true));
}

#[test]
fn path_labels_preserve_unicode_and_escape_terminal_and_direction_controls() {
    assert_eq!(
        path_label(&"src/λ\n\u{1b}[2J\u{202e}name.rs".as_bytes().to_vec()),
        "src/λ\\n\\u{1b}[2J\\u{202e}name.rs"
    );
}

fn entry(path: &str) -> ChangeEntry {
    ChangeEntry {
        path: path.as_bytes().to_vec(),
        previous_path: None,
        kind: ChangeKind::Modified,
        additions: Some(1),
        deletions: Some(1),
        binary: false,
        permission_change: false,
        bytes: 100,
        hunks: vec![10, 50],
        start: 0,
        ranges: vec![(0, 100)],
        blob: None,
        regular: true,
    }
}

#[test]
fn filters_ignore_case_and_keep_a_listed_selection() {
    let mut renamed = entry("docs/Über.md");
    renamed.previous_path = Some(b"old/NAME".to_vec());
    renamed.kind = ChangeKind::Renamed;
    let entries = vec![entry("src/Main.rs"), renamed, entry("src/lib.rs")];
    assert_eq!(visible_entries(&entries, "MAIN"), [0]);
    assert_eq!(visible_entries(&entries, "über"), [1]);
    assert_eq!(visible_entries(&entries, "name"), [1]);
    assert_eq!(visible_entries(&entries, ""), [0, 1, 2]);
    let mut view = ReviewView::new();
    keep_selection(&mut view, &vec![2]);
    assert_eq!(view.selected, 2);
    keep_selection(&mut view, &vec![]);
    assert_eq!(view.selected, 2);
    assert_eq!(
        rename_note(&ReviewView::new(), &entries).as_deref(),
        Some("1 rename(s) combine old and new paths")
    );
    assert_eq!(title(&ReviewView::new(), &entries, 2, true), "Changes  -  3 entries  -  2 matching");
    assert_eq!(
        entry_row(&entries[1], true, 80),
        "> renamed  +1 -1        docs/Über.md <- old/NAME"
    );
    assert_eq!(entry_row(&entries[0], false, 30), "  modified src/Main.rs");
    let mut binary = entry("a/very/long/path/to/file.bin");
    binary.binary = true;
    assert_eq!(entry_row(&binary, false, 30), "  modified binary .../file.bin");
    assert_eq!(first_row(&vec![0, 1, 2, 3, 4], 4, 3), 2);
    assert_eq!(first_row(&vec![0, 1, 2], 1, 3), 0);
    assert_eq!(tail_clip("src/main.rs", 8), "...in.rs");
    assert_eq!(tail_clip("src/main.rs", 2), "..");
    assert_eq!(tail_clip("src", 8), "src");
}

#[test]
fn keys_move_within_lists_and_files() {
    let visible = vec![0, 2, 5];
    let mut view = ReviewView::new();
    let mut searching = false;
    let mut press = |view: &mut ReviewView, searching: &mut bool, k: Key| {
        let hunks = vec![10u64, 50];
        let page = Some(Page { truncated: true, next_offset: 77 });
        inspect_key(view, searching, k, &visible, page, 40, Some(&hunks))
    };
    press(&mut view, &mut searching, key(KeyCode::Down));
    assert_eq!(view.selected, 2);
    press(&mut view, &mut searching, key(KeyCode::Char('j')));
    press(&mut view, &mut searching, key(KeyCode::Char('j')));
    assert_eq!(view.selected, 5);
    press(&mut view, &mut searching, key(KeyCode::Up));
    assert_eq!(view.selected, 2);
    press(&mut view, &mut searching, key(KeyCode::Char('/')));
    assert!(searching);
    press(&mut view, &mut searching, key(KeyCode::Char('q')));
    press(&mut view, &mut searching, key(KeyCode::Char('x')));
    press(&mut view, &mut searching, key(KeyCode::Backspace));
    assert_eq!(view.filter, "q");
    press(&mut view, &mut searching, key(KeyCode::Esc));
    assert!(!searching);
    press(&mut view, &mut searching, key(KeyCode::Enter));
    assert!(view.file);
    press(&mut view, &mut searching, key(KeyCode::PageDown));
    press(&mut view, &mut searching, key(KeyCode::PageDown));
    press(&mut view, &mut searching, key(KeyCode::PageDown));
    assert_eq!(view.row, 39);
    press(&mut view, &mut searching, key(KeyCode::PageUp));
    assert_eq!(view.row, 24);
    press(&mut view, &mut searching, key(KeyCode::Char('n')));
    assert_eq!((view.offset, view.row), (10, 0));
    press(&mut view, &mut searching, key(KeyCode::Char('n')));
    press(&mut view, &mut searching, key(KeyCode::Char('n')));
    assert_eq!(view.offset, 50);
    press(&mut view, &mut searching, key(KeyCode::Char('p')));
    assert_eq!(view.offset, 10);
    press(&mut view, &mut searching, key(KeyCode::Char(' ')));
    assert_eq!(view.offset, 77);
    press(&mut view, &mut searching, key(KeyCode::Right));
    assert_eq!(view.column, 8);
    press(&mut view, &mut searching, key(KeyCode::Char(']')));
    assert_eq!((view.selected, view.offset, view.column), (5, 0, 0));
    press(&mut view, &mut searching, key(KeyCode::Char('[')));
    assert_eq!(view.selected, 2);
    assert_eq!(
        press(&mut view, &mut searching, key(KeyCode::Char('v'))),
        InspectStep::External { pager: true }
    );
    assert_eq!(press(&mut view, &mut searching, key(KeyCode::Esc)), InspectStep::Stay);
    assert!(!view.file);
    assert_eq!(press(&mut view, &mut searching, key(KeyCode::Esc)), InspectStep::Back);
    assert_eq!(press(&mut view, &mut searching, control('d')), InspectStep::Close);
    assert_eq!(press(&mut view, &mut searching, control('c')), InspectStep::Back);
    let mut release = key(KeyCode::Char('q'));
    release.kind = KeyKind::Repeat;
    assert_eq!(press(&mut view, &mut searching, release), InspectStep::Stay);
    assert_eq!(details_key(0, Some(key(KeyCode::Up))), (0, true));
    assert_eq!(details_key(65535, Some(key(KeyCode::Down))), (65535, true));
    assert_eq!(details_key(3, Some(control('c'))), (3, false));
    assert_eq!(details_key(3, None), (3, false));
}

#[test]
fn tiny_changes_are_shown_beside_the_decision() {
    let patch = b"diff --git a/x b/x\nindex 1..2 100644\n--- a/x\n+++ b/x\n@@ -1 +1 @@\n-old\n+new\n".to_vec();
    let entries = index_patch(&patch).unwrap();
    assert_eq!(tiny_preview(&entries, &patch), "Preview · x\n-old\n+new");
    assert_eq!(tiny_preview(&vec![], &patch), "");
    let mut large = entries.clone();
    large[0].additions = Some(9);
    assert_eq!(tiny_preview(&large, &patch), "");
    assert_eq!(
        compact_patch(std::str::from_utf8(&patch).unwrap()),
        "@@ -1 +1 @@\n-old\n+new"
    );
    assert_eq!(short_preview(&b"x".to_vec(), " only context"), "");
    let shown = preview(&entries[0], &patch, 0, 4096);
    assert_eq!(
        plain_file(&entries[0], &shown),
        "x\n@@ -1 +1 @@\n-old\n+new\nEnd of file change"
    );
    assert_eq!(plain_list(&entries, 0), "1 modified x");
    assert_eq!(plain_list(&entries, 1), "");
}

#[test]
fn decisions_are_typed_letter_by_letter() {
    let mut action = String::new();
    assert_eq!(action_key(&mut action, key(KeyCode::Char('A'))), None);
    assert_eq!(action_key(&mut action, key(KeyCode::Char('1'))), None);
    assert_eq!(action_key(&mut action, key(KeyCode::Char('a'))), None);
    assert_eq!(action, "aa");
    assert_eq!(action_key(&mut action, key(KeyCode::Backspace)), None);
    assert_eq!(action_key(&mut action, key(KeyCode::Enter)), Some(Input::Submit("a".into())));
    let mut empty = String::new();
    assert_eq!(action_key(&mut empty, key(KeyCode::Enter)), Some(Input::Submit("d".into())));
    assert_eq!(action_key(&mut empty, control('d')), Some(Input::Eof));
    assert_eq!(action_key(&mut empty, key(KeyCode::Esc)), Some(Input::Cancel));
    let mut long = "abcdefghijkl".to_string();
    assert_eq!(action_key(&mut long, key(KeyCode::Char('m'))), None);
    assert_eq!(long.len(), 12);
    assert_eq!(typed_line("a", true), "> a - Enter to choose");
    assert_eq!(typed_line("a", false), "› a · Enter to choose");
    assert_eq!(typed_line("", false), "");
    assert!(plain_decision("S", "P", "N").starts_with("S\nP\nN\n[Enter/d] Review changes"));
    assert!(in_summary("Verification passed") && !in_summary("● goal ━━ ○ work"));
    let area = Rect { x: 0, y: 0, width: 45, height: 12 };
    assert!(shows_preview("p", area) && !shows_preview("", area));
    let (upper, controls, typed) = decision_layout(area, 3);
    assert_eq!((upper.height, controls.y, controls.height, typed.y), (8, 8, 3, 11));
}

#[test]
fn plain_inspection_obeys_its_words() {
    let mut view = ReviewView::new();
    let submit = |text: &str| Input::Submit(text.into());
    assert!(plain_command(&mut view, 60, &submit("more")));
    assert_eq!(view.selected, 20);
    assert!(plain_command(&mut view, 60, &submit("+07")));
    assert_eq!((view.selected, view.file), (6, true));
    assert!(plain_command(&mut view, 60, &submit("61")));
    assert!(plain_command(&mut view, 60, &submit("99999999999999999999999999")));
    assert!(plain_command(&mut view, 60, &submit("0")));
    assert_eq!(view.selected, 6);
    assert!(plain_command(&mut view, 60, &submit("files")));
    assert!(!view.file);
    assert!(!plain_command(&mut view, 60, &submit("q")));
    assert!(!plain_command(&mut view, 60, &Input::Cancel));
    let mut view = ReviewView::new();
    assert_eq!(begin_inspection(&mut view, 1, false, false), InspectStart::Screen);
    assert!(view.file);
    assert_eq!(begin_inspection(&mut view, 2, false, true), InspectStart::Screen);
    assert!(!view.file);
    assert_eq!(begin_inspection(&mut view, 1, false, true), InspectStart::External);
    assert_eq!(begin_inspection(&mut view, 1, true, true), InspectStart::Plain);
    assert_eq!(inspect_hint(true, true).split("  ").next(), Some("q back"));
    assert_eq!(status_line(&view, true, "n", true, true), "Filter /");
    assert_eq!(status_line(&view, false, "n · m", true, true), "n - m");
    assert_eq!(
        viewer_notice(false, &Ok(true)),
        "Review closed. Acceptance is still your choice."
    );
    assert!(viewer_notice(true, &Ok(true)).starts_with("Review copies changed."));
    assert_eq!(
        viewer_notice(false, &Err("gone".into())),
        "Viewer failed: gone. Built-in review remains available."
    );
    assert_eq!(no_viewer("x"), "Viewer unavailable: x. Built-in review remains available.");
}

#[test]
fn a_plain_inspection_opens_a_single_change() {
    let mut view = ReviewView::new();
    assert_eq!(plain_start(&mut view, 0), Some("No file changes to inspect."));
    assert_eq!(plain_start(&mut view, 2), None);
    assert!(!view.file);
    assert_eq!(plain_start(&mut view, 1), None);
    assert!(view.file);
    assert_eq!(
        plain_prompt("1 Modified a.rs"),
        "1 Modified a.rs\n[number] open file  [more] next page  [files] file list  [q] back"
    );
}
