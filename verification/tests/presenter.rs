use dispatch::orchestrator::attach::{
    AttachCapabilities, AttachConfidence, AttachmentRecord, BaselineProvenance, OwnerState,
    WorkspaceOwner,
};
use dispatch::presenter::editor::{
    content_area, layout, paste, press, read_line, restore_draft, Edit, Key, KeyCode, KeyKind,
    Preserved, Prompt, Rect,
};
use dispatch::presenter::inspection::cut_end;
use dispatch::presenter::lines::{diff_lines, emphasize, styled_body, Line};
use dispatch::presenter::theme::{Style, Theme};
use dispatch::presenter::{
    activity_hint, clip, coherence_text, cut_line, details, display_text, goal_heading, goal_heading_marked,
    hint_with_mode, label, launch_accounting, mode_hint_text, parse_auto_apply_command,
    pending_question, projection, review_command, sanitize, verification_text, AutoApplyCommand,
    Cluster, EventRecord, Input, Measured,
};
use dispatch::record::{
    ApplicationState, AppliedBy, AttemptDetail, AttemptRecord, CandidateRecord, CandidateStatus,
    CheckpointReport, Clarification, CoherenceRecord, Decision, DiffStats, FailureKind,
    GoalExecution, LifecycleState, QuestionState, Reason, ReviewState, RunMode, RunOutcome,
    RunPhase, RunRecord, RunStatus, Validity, VerificationState, WaitingOn, WorkResult,
};
use ratatui::backend::TestBackend;
use ratatui::widgets::{Paragraph, Wrap};
use ratatui::Terminal;
use ratatui_textarea::TextArea;
use unicode_width::UnicodeWidthStr;

fn run() -> RunRecord {
    RunRecord {
        id: "01TEST".into(),
        task: "Fix cache".into(),
        exact_prompt: "Fix cache".into(),
        source_path: "/source".into(),
        source_fingerprint: "baseline".into(),
        baseline_path: "/baseline".into(),
        baseline_commit: "abc".into(),
        status: RunStatus::Running,
        mode: RunMode::Native,
        state_revision: 0,
        outcome: RunOutcome {
            lifecycle: LifecycleState::Preparing,
            work_result: WorkResult::Pending,
            verification: VerificationState::NotRun,
            review: ReviewState::NotRequested,
            application: ApplicationState::NotApplied,
            phase: RunPhase::Preparing,
            waiting_on: WaitingOn::Nothing,
            applied_by: None,
        },
        created_at: 1_789_603_200_000_000,
        completed_at: None,
        execution_backend: "local".into(),
        unsafe_local: false,
        baseline_checks: vec![],
        candidates: vec![],
        attempts: vec![],
        allocation: None,
        coherence: None,
        applied_candidate: None,
        attachment: None,
        capacity: None,
        admission: None,
        phase3: None,
    }
}

fn render(text: &str, width: u16) -> String {
    let mut terminal = Terminal::new(TestBackend::new(width, 8)).unwrap();
    terminal
        .draw(|f| f.render_widget(Paragraph::new(text).wrap(Wrap { trim: false }), f.area()))
        .unwrap();
    terminal
        .backend()
        .buffer()
        .content
        .chunks(width as usize)
        .map(|row| {
            row.iter().map(|c| c.symbol()).collect::<String>().trim_end().to_owned()
        })
        .collect::<Vec<_>>()
        .join("\n")
        .trim_end()
        .to_owned()
}

fn attempt(ordinal: u32, outcome: &str) -> AttemptRecord {
    AttemptRecord {
        id: "attempt".into(),
        run_id: "01TEST".into(),
        candidate_id: "candidate".into(),
        role: "work".into(),
        ordinal,
        generation: 1,
        harness_id: "codex".into(),
        harness_version: None,
        requested_model: None,
        resolved_model: Some("gpt-5.6-luna".into()),
        observed_model: None,
        requested_effort: None,
        resolved_effort: None,
        observed_effort: None,
        started_at: 0,
        completed_at: None,
        outcome: outcome.into(),
        raw_telemetry_path: "/raw".into(),
        resource: None,
        detail: AttemptDetail {
            parent_attempt_id: None,
            reason: None,
            input_baseline: None,
            capacity: None,
            admission: None,
            decision: None,
            task_id: None,
            plan_revision: None,
            input_snapshot_id: None,
            consumed_artifacts: vec![],
            failure: None,
            result: None,
        },
    }
}

fn candidate() -> CandidateRecord {
    CandidateRecord {
        id: "candidate".into(),
        label: "A".into(),
        harness_id: "codex".into(),
        harness_version: None,
        model: None,
        status: CandidateStatus::Completed,
        workspace_path: "/w".into(),
        prompt_path: "/p".into(),
        stdout_path: "/out".into(),
        stderr_path: "/err".into(),
        diff_path: "/patch".into(),
        duration_ms: 0,
        exit_code: Some(0),
        timed_out: false,
        tokens: None,
        token_semantics: None,
        cost: None,
        error: None,
        diff_stats: DiffStats { files_changed: 1, lines_added: 3, lines_removed: 2 },
        checks: vec![],
    }
}

fn goal() -> GoalExecution {
    GoalExecution {
        owner_uid: 1,
        deadline_at: 0,
        max_invocations: 2,
        no_retry: false,
        fixed_harness: None,
        fixed_model: None,
        fixed_effort: None,
        failure: None,
        final_attempt_id: None,
        contributing_attempts: vec![],
        provenance: "test".into(),
        supervisor: None,
        questions: vec![],
        planning: None,
    }
}

fn question(state: QuestionState) -> Clarification {
    Clarification {
        id: "q".into(),
        run_id: "01TEST".into(),
        attempt_id: "attempt".into(),
        generation: 1,
        revision: 4,
        report: CheckpointReport {
            question: "Which cache?".into(),
            choices: vec!["disk".into(), "memory".into()],
            category: Some("scope".into()),
        },
        state,
        answer: None,
        created_at: 0,
        resolved_at: None,
        actor_uid: None,
        actor: None,
    }
}

#[test]
fn state_render_wide_narrow_ascii_snapshots() {
    let mut r = run();
    r.outcome.work_result = WorkResult::Ready;
    r.outcome.verification = VerificationState::Passed;
    r.outcome.phase = RunPhase::Reviewing;
    r.outcome.review = ReviewState::Pending;
    assert_eq!(
        render(&projection(&r, None, 90, false), 90),
        "Goal  Fix cache\n\nReady for review\n● goal ── ○ work ━━ ● verify ━━ ● review\nVerification passed"
    );
    assert_eq!(
        render(&projection(&r, None, 24, true), 24),
        "Goal  Fix cache\n\nReady for review\no work\n* checks  * review\nVerification passed"
    );
    for (waiting, expected) in [
        (WaitingOn::Human, "Waiting for you"),
        (WaitingOn::Admission, "Waiting for shared admission"),
        (WaitingOn::Capacity, "Waiting for subscription capacity"),
    ] {
        r.outcome.waiting_on = waiting;
        assert_eq!(label(&r, None), expected);
    }
    r.outcome.application = ApplicationState::BlockedBySourceDrift;
    assert_eq!(label(&r, None), "Application blocked: source changed");
}

fn attachment() -> AttachmentRecord {
    AttachmentRecord {
        version: 1,
        workspace: "/repo-worktree".into(),
        integration_root: "/repo".into(),
        repo_key: Some("sha256:deadbeef".into()),
        provenance: BaselineProvenance::GitMergeBase { commit: "0123456789abcdef".into() },
        confidence: AttachConfidence::Full,
        agent: Some("codex".into()),
        command: Some(vec!["codex".into()]),
        owner: None,
        agent_process: None,
        owner_state: OwnerState::Live,
        capabilities: AttachCapabilities {
            observe: true,
            signal: true,
            control: true,
            integrate: false,
        },
        attached_at: 0,
        finished_at: None,
        finish_reason: None,
        workspace_owner: WorkspaceOwner::User,
        managed: None,
        sessions: vec![],
        workspace_removed: None,
    }
}

#[test]
fn attached_run_working_and_owner_gone_labels_and_graph_model_name() {
    let mut r = run();
    r.mode = RunMode::Attached;
    r.attachment = Some(attachment());
    r.outcome.lifecycle = LifecycleState::Working;
    r.outcome.phase = RunPhase::Executing;
    r.outcome.work_result = WorkResult::Pending;
    assert_eq!(label(&r, None), "Attached agent working");
    let text = projection(&r, None, 90, false);
    assert!(text.contains("Attached agent working"), "{text}");
    assert!(text.contains("codex"), "{text}");

    r.attachment.as_mut().unwrap().agent = None;
    assert!(projection(&r, None, 90, false).contains("external"));

    r.attachment.as_mut().unwrap().owner_state = OwnerState::Gone;
    assert_eq!(label(&r, None), "Attached agent's owner is gone; finish or reject");

    r.outcome.lifecycle = LifecycleState::Finished;
    assert_ne!(label(&r, None), "Attached agent's owner is gone; finish or reject");
}

#[test]
fn waiting_for_a_decision_or_capacity_never_claims_agent_is_running() {
    let mut r = run();
    r.outcome.phase = RunPhase::Executing;
    r.outcome.work_result = WorkResult::Pending;
    r.outcome.waiting_on = WaitingOn::Nothing;
    assert!(projection(&r, None, 90, false).contains("Agent running"));
    for waiting in [
        WaitingOn::Human,
        WaitingOn::Capacity,
        WaitingOn::Admission,
        WaitingOn::Reconciliation,
        WaitingOn::Authorization,
    ] {
        r.outcome.waiting_on = waiting;
        assert!(!projection(&r, None, 90, false).contains("Agent running"));
    }
}

/// The editor as a program holds it: a widget, steered by the library.
struct Editor {
    text: TextArea<'static>,
}

impl Editor {
    fn new() -> Self {
        Self { text: TextArea::default() }
    }
    fn lines(&self) -> Vec<String> {
        self.text.lines().to_vec()
    }
    fn paste(&mut self, value: &str) -> Input {
        if let Some(text) = paste(&self.lines(), value) {
            self.text.insert_str(text);
        }
        Input::Changed
    }
    fn key(&mut self, code: KeyCode, control: bool, shift: bool) -> Input {
        let key = Key { code, kind: KeyKind::Press, control, shift, alt: false };
        match press(&self.lines(), key) {
            Edit::Keep => Input::Changed,
            Edit::Newline => {
                self.text.insert_newline();
                Input::Changed
            }
            Edit::Widget => {
                if code == KeyCode::Backspace {
                    self.text.delete_char();
                }
                Input::Changed
            }
            Edit::Leave(input) => {
                if matches!(input, Input::Submit(_)) {
                    self.text = TextArea::default();
                }
                input
            }
        }
    }
}

#[test]
fn compact_input_and_activity_survive_resize() {
    let mut editor = Editor::new();
    editor.paste("α\n界");
    for width in [90u16, 24, 8, 1, 90] {
        let area = content_area(Rect { x: 0, y: 0, width, height: 8 });
        let count = |text: &'static str| {
            Paragraph::new(text).wrap(Wrap { trim: false }).line_count(area.width)
        };
        let hints = count("Enter send");
        let body = count("Your answer");
        let l = layout(area, Some(editor.lines().len()), hints, body);
        let body_height = body.min(6 - hints.min(3)) as u16;
        let mut terminal = Terminal::new(TestBackend::new(width, 8)).unwrap();
        terminal
            .draw(|f| {
                f.render_widget(
                    Paragraph::new(">"),
                    ratatui::layout::Rect::new(l.sign.x, l.sign.y, l.sign.width, l.sign.height),
                )
            })
            .unwrap();
        assert_eq!(terminal.backend().buffer()[(area.x, body_height)].symbol(), ">");
        assert_eq!(editor.text.lines(), &["α", "界"]);
    }
    assert_eq!(activity_hint(0, true, false), "| 0s elapsed · Ctrl+C cancel");
    assert_eq!(activity_hint(1200, true, false), "- 1s elapsed · Ctrl+C cancel");
    assert_ne!(activity_hint(0, false, false), activity_hint(200, false, false));
    assert_eq!(activity_hint(1200, false, true), ". 1s elapsed · Ctrl+C cancel");
}

fn text_of(line: &Line) -> String {
    line.spans.iter().map(|s| s.text.as_str()).collect()
}

#[test]
fn tiny_diff_emphasizes_only_changed_graphemes() {
    let palette = Theme::from_hints(true, None, None, None, None);
    let lines = diff_lines("- int radius = 20;\n+ int radius = 40;", &palette);
    assert_eq!(lines[0].spans[1].text, "2");
    assert_eq!(lines[1].spans[1].text, "4");
    assert!(lines[0].spans[1].style.underlined);
    assert_eq!(lines[0].spans[1].style.fg, None);
    for text in ["-é🙂\n+é界", "-\n+new", "-old\n+", "-same\n+same"] {
        let displayed =
            diff_lines(text, &palette).iter().map(text_of).collect::<Vec<_>>().join("\n");
        assert_eq!(displayed, text);
    }
}

#[test]
fn only_pairs_of_one_line_each_are_emphasized() {
    let palette = Theme::from_hints(false, Some("truecolor"), Some("dark"), None, None);
    let lines = diff_lines("@@ -1,2 +1 @@\n-one\n-two\n+three\n context", &palette);
    assert_eq!(lines.len(), 5);
    assert!(lines.iter().all(|l| l.spans.len() == 1));
    assert_eq!(lines[0].style, palette.secondary);
    assert_eq!(lines[1].style, palette.deletion);
    assert_eq!(lines[3].style, palette.addition);
    assert_eq!(lines[4].style, palette.foreground);
    let headers = diff_lines("--- a/x\n+++ b/x", &palette);
    assert!(headers.iter().all(|l| l.spans.len() == 1));
}

fn with_validity(
    decision: Decision,
    world_changed: bool,
    changed_files: u64,
    detail: Option<&str>,
) -> RunRecord {
    let mut r = run();
    r.outcome.work_result = WorkResult::Ready;
    r.outcome.verification = VerificationState::Passed;
    r.coherence = Some(CoherenceRecord {
        version: 1,
        refreshed_from: None,
        facts: Vec::new(),
        validity: Some(Validity {
            decision,
            evaluated_at: 0,
            world_digest: String::new(),
            world_changed,
            changed_files,
            reasons: detail
                .map(|detail| Reason { code: "fact_broken".into(), detail: detail.into() })
                .into_iter()
                .collect(),
        }),
        first_invalid_at: None,
    });
    r
}

#[test]
fn coherence_line_follows_verification_for_every_verdict() {
    let cases = [
        (
            with_validity(Decision::Continue, false, 0, None),
            "Coherence: CONTINUE — world unchanged",
        ),
        (
            with_validity(Decision::Continue, true, 4, None),
            "Coherence: CONTINUE — 4 files changed underneath, none affect this work",
        ),
        (
            with_validity(Decision::Continue, true, 1, None),
            "Coherence: CONTINUE — 1 file changed underneath, none affect this work",
        ),
        (
            with_validity(Decision::Refresh, true, 1, Some("auth::validate changed\nagain")),
            "Coherence: REFRESH — auth::validate changed again",
        ),
        (
            with_validity(Decision::Refresh, true, 1, None),
            "Coherence: REFRESH — files changed underneath the work",
        ),
        (
            with_validity(Decision::Stop, true, 1, None),
            "Coherence: STOP — this patch is already in the source",
        ),
    ];
    for (r, expected) in cases {
        let text = projection(&r, None, 120, false);
        let lines = text.lines().collect::<Vec<_>>();
        let at = lines.iter().position(|line| line.starts_with("Verification")).unwrap();
        assert_eq!(lines[at + 1], expected, "{text}");
        let ascii = projection(&r, None, 120, true);
        assert!(ascii.contains(&expected.replace('—', "-")), "{ascii}");
        assert!(!ascii.contains('—'));
    }
}

#[test]
fn coherence_line_is_absent_without_validity_or_ready_work() {
    let r = run();
    assert!(!projection(&r, None, 90, false).contains("Coherence"));
    let mut pending = with_validity(Decision::Refresh, true, 1, Some("x"));
    pending.outcome.work_result = WorkResult::Pending;
    assert!(!projection(&pending, None, 90, false).contains("Coherence"));
    let mut plain = with_validity(Decision::Refresh, true, 1, Some("x"));
    plain.coherence.as_mut().unwrap().validity = None;
    assert!(!projection(&plain, None, 90, false).contains("Coherence"));
}

#[test]
fn coherence_line_is_clipped_to_the_width() {
    let r = with_validity(Decision::Refresh, true, 1, Some(&"long detail ".repeat(20)));
    let text = projection(&r, None, 40, false);
    let line = text.lines().find(|l| l.starts_with("Coherence")).unwrap();
    assert!(UnicodeWidthStr::width(line) <= 40, "{line}");
    assert!(line.ends_with("..."));
}

#[test]
fn unconfigured_checks_never_look_verified() {
    let mut r = run();
    r.outcome.work_result = WorkResult::Ready;
    r.outcome.verification = VerificationState::NotConfigured;
    let text = projection(&r, None, 90, false);
    assert!(text.contains("Unverified — no checks configured"));
    assert!(!text.contains("● verify"));
    let palette = Theme::from_hints(false, Some("truecolor"), Some("dark"), None, None);
    let rendered = styled_body(&text, &palette);
    assert!(!rendered.iter().any(|line| line.style == palette.success));
}

#[test]
fn malicious_content_cannot_control_terminal() {
    assert_eq!(
        sanitize(
            "a\x1b[31mred\x1b[0m\x1b]52;c;secret\x07b\x1bPpayload\x1b\\c\u{202e}d\u{009b}2J\x00"
        ),
        "aredbcd"
    );
    assert_eq!(sanitize("x\x1b]unfinished"), "x");
}

#[test]
fn sanitizing_keeps_plain_text_and_is_idempotent() {
    assert_eq!(sanitize("a\tb\nλ 界🙂"), "a\tb\nλ 界🙂");
    let once = sanitize("a\u{9d}title\u{9c}b\x1bcx\u{2066}y\r\n");
    assert_eq!(once, "abxy\n");
    assert_eq!(sanitize(&once), once);
}

#[test]
fn paste_unicode_resize_submit_once() {
    let mut editor = Editor::new();
    assert_eq!(editor.paste("α\n界🙂"), Input::Changed);
    for (w, h) in [(100, 30), (18, 5), (80, 24)] {
        let mut terminal = Terminal::new(TestBackend::new(w, h)).unwrap();
        terminal.draw(|f| f.render_widget(&editor.text, f.area())).unwrap();
    }
    editor.key(KeyCode::Backspace, false, false);
    assert_eq!(editor.key(KeyCode::Enter, false, false), Input::Submit("α\n界".into()));
    assert_eq!(editor.key(KeyCode::Enter, false, false), Input::Submit(String::new()));
    assert_eq!(editor.key(KeyCode::Char('d'), true, false), Input::Eof);
    assert_eq!(editor.key(KeyCode::Char('c'), true, false), Input::Cancel);
}

#[test]
fn back_tab_toggles_auto_apply_and_leaves_the_draft_untouched() {
    let mut editor = Editor::new();
    editor.text.insert_str("keep me");
    assert_eq!(editor.key(KeyCode::BackTab, false, true), Input::ToggleAutoApply);
    assert_eq!(editor.text.lines(), &["keep me"]);
    assert_eq!(editor.key(KeyCode::BackTab, false, false), Input::ToggleAutoApply);
    assert_eq!(editor.text.lines(), &["keep me"]);
}

#[test]
fn keys_that_a_draft_refuses_or_breaks() {
    let key = |code| Key {
        code,
        kind: KeyKind::Press,
        control: false,
        shift: false,
        alt: false,
    };
    let draft = vec!["a".to_string()];
    assert_eq!(press(&draft, key(KeyCode::Char('x'))), Edit::Widget);
    assert_eq!(press(&draft, key(KeyCode::Char('\u{202e}'))), Edit::Keep);
    let mut newline = key(KeyCode::Enter);
    newline.alt = true;
    assert_eq!(press(&draft, newline), Edit::Newline);
    let mut release = key(KeyCode::Enter);
    release.kind = KeyKind::Release;
    assert_eq!(press(&draft, release), Edit::Keep);
    let mut leave = key(KeyCode::Char('d'));
    leave.control = true;
    assert_eq!(press(&draft, leave), Edit::Widget);
    let full = vec!["x".repeat(16 * 1024)];
    assert_eq!(press(&full, key(KeyCode::Char('x'))), Edit::Keep);
    assert_eq!(press(&full, key(KeyCode::Left)), Edit::Widget);
    assert_eq!(paste(&full, "y"), None);
    assert_eq!(paste(&draft, "b\r\nc\rd\x1b[0m"), Some("b\nc\nd".to_string()));
    assert_eq!(paste(&vec!["x".repeat(16 * 1024 - 2)], "é"), Some("é".to_string()));
    assert_eq!(paste(&vec!["x".repeat(16 * 1024 - 1)], "é"), None);
}

#[test]
fn prompts_keep_what_was_preserved_and_toggle_only_the_mode() {
    let mut prompt = Prompt { closed: false, auto_apply: false };
    assert_eq!(prompt.take(Input::ToggleAutoApply), None);
    assert_eq!(prompt, Prompt { closed: false, auto_apply: true });
    assert_eq!(prompt.take(Input::Changed), None);
    assert_eq!(prompt.take(Input::Submit("x".into())), Some(Input::Submit("x".into())));
    assert_eq!(prompt.take(Input::Eof), Some(Input::Eof));
    assert_eq!(prompt, Prompt { closed: true, auto_apply: true });
    assert_eq!(restore_draft("What do you want to accomplish?", "", false), Preserved::Keep);
    assert_eq!(restore_draft("Your answer", "goal", false), Preserved::Keep);
    assert_eq!(restore_draft("to accomplish?", "goal", false), Preserved::Insert);
    assert_eq!(
        restore_draft("to accomplish?", "goal", true),
        Preserved::Tell("Preserved goal: goal\nEnter it again to submit explicitly.".into())
    );
    assert_eq!(read_line(&b"line \r\n".to_vec()), Ok("line ".to_string()));
    assert_eq!(read_line(&vec![0xff, b'a']), Ok("\u{fffd}a".to_string()));
    assert_eq!(read_line(&vec![b'a'; 16 * 1024 + 1]), Err("input exceeds 16 KiB".to_string()));
}

#[test]
fn rows_of_a_view_never_leave_the_area() {
    let area = Rect { x: 2, y: 1, width: 40, height: 6 };
    let l = layout(area, Some(9), 5, 30);
    assert_eq!(l.draft, Rect { x: 4, y: 1, width: 38, height: 3 });
    assert_eq!(l.sign, Rect { x: 2, y: 1, width: 2, height: 3 });
    assert_eq!(l.hints, Rect { x: 2, y: 4, width: 40, height: 3 });
    assert_eq!(l.body.height, 0);
    let l = layout(area, None, 1, 3);
    assert_eq!((l.body.height, l.sign.height, l.hints.y, l.hints.height), (3, 0, 4, 1));
    assert_eq!(
        content_area(Rect { x: 0, y: 0, width: 4, height: 2 }),
        Rect { x: 0, y: 0, width: 4, height: 2 }
    );
    assert_eq!(
        content_area(Rect { x: 0, y: 0, width: 5, height: 2 }),
        Rect { x: 2, y: 0, width: 2, height: 2 }
    );
}

#[test]
fn mode_hint_reflects_state_in_both_charsets() {
    assert_eq!(mode_hint_text(false, false), "⏸ review before apply · Shift+Tab");
    assert_eq!(mode_hint_text(false, true), "⏵⏵ auto-apply on · Shift+Tab to pause");
    assert_eq!(mode_hint_text(true, false), "[review before apply] Shift+Tab");
    assert_eq!(mode_hint_text(true, true), ">> AUTO-APPLY ON - Shift+Tab to pause");
}

#[test]
fn auto_apply_command_parses_on_off_and_bare_toggle() {
    assert_eq!(parse_auto_apply_command("/auto-apply"), Some(AutoApplyCommand::Toggle));
    assert_eq!(parse_auto_apply_command("  /auto-apply  "), Some(AutoApplyCommand::Toggle));
    assert_eq!(parse_auto_apply_command("/auto-apply on"), Some(AutoApplyCommand::On));
    assert_eq!(parse_auto_apply_command("/auto-apply off"), Some(AutoApplyCommand::Off));
    assert_eq!(parse_auto_apply_command("/auto-apply maybe"), None);
    assert_eq!(parse_auto_apply_command("auto-apply on"), None);
    assert_eq!(parse_auto_apply_command("Add tests"), None);
}

#[test]
fn resize_work_and_question_preserves_committed_projection() {
    let mut r = run();
    r.outcome.lifecycle = LifecycleState::Working;
    r.outcome.phase = RunPhase::Verifying;
    let before = r.clone();
    for width in [100, 18, 1, 80] {
        let _ = render(&projection(&r, None, width, false), width);
    }
    assert_eq!(r, before);
    r.outcome.waiting_on = WaitingOn::Human;
    for width in [80, 18] {
        assert!(projection(&r, None, width, true).contains("Waiting for you"));
    }
}

#[test]
fn labels_follow_the_outcome() {
    let mut r = run();
    assert_eq!(label(&r, None), "Preparing");
    let recovery = EventRecord { event_type: "recovery.selected".into(), reason: None };
    assert_eq!(label(&r, Some(&recovery)), "Recovering once after failed verification");
    r.outcome.work_result = WorkResult::Cancelled;
    assert_eq!(label(&r, Some(&recovery)), "Cancelled");
    r.outcome.review = ReviewState::Accepted;
    assert_eq!(label(&r, None), "Accepted; not applied");
    r.outcome.application = ApplicationState::Applied;
    assert_eq!(label(&r, None), "Accepted and applied");
    r.outcome.applied_by = Some(AppliedBy::AutoApply);
    assert_eq!(label(&r, None), "Auto-applied; reviewed: accepted");
    r.outcome.review = ReviewState::NotRequested;
    assert_eq!(label(&r, None), "Auto-applied; review pending");
    r.outcome.application = ApplicationState::Failed;
    assert_eq!(label(&r, None), "Application failed");
    assert_eq!(verification_text(VerificationState::Inconclusive), "Verification inconclusive");
}

#[test]
fn projection_shows_branches_size_question_and_reason() {
    let mut r = run();
    r.attempts = vec![attempt(1, "completed"), attempt(2, "timed_out")];
    r.attempts[0].detail.failure = Some(FailureKind::TargetVerification);
    r.attempts[1].detail.reason = Some("target_verification_failure".into());
    r.attempts[1].resolved_model = None;
    r.outcome.work_result = WorkResult::Ready;
    r.outcome.verification = VerificationState::Failed;
    r.candidates = vec![candidate()];
    let mut p = goal();
    p.failure = Some(FailureKind::Deadline);
    p.questions = vec![question(QuestionState::Pending)];
    r.phase3 = Some(p);
    let event = EventRecord { event_type: "x".into(), reason: Some("because \x1b[1m→".into()) };
    assert_eq!(
        projection(&r, Some(&event), 80, false),
        "Goal  Fix cache\n\nReady for review\n● goal ━━ ● work ━━ × verify ━━ ○ review\n├─ Attempt 1 · Luna: verification failed\n╰━ Recovery · Attempt 2 · model unknown: timed out\nVerification failed\n1 file changed · +3 / -2 lines\nDecision needed · answering continues this goal within its remaining limit.\nWhich cache?\ndisk / memory\nThe shared deadline expired; no continuation time remains.\nbecause →"
    );
    assert_eq!(
        projection(&r, Some(&event), 60, true),
        "Goal  Fix cache\n\nReady for review\n* goal == * work\nx verify == o review\n+- Attempt 1 - Luna: verification failed\n+- Recovery - Attempt 2 - model unknown: timed out\nVerification failed\n1 file changed - +3 / -2 lines\nDecision needed - answering continues this goal within its remaining limit.\nWhich cache?\ndisk / memory\nThe shared deadline expired; no continuation time remains.\nbecause ->"
    );
    assert_eq!(
        details(&r),
        "Goal: Fix cache\nRun: 01TEST\nState revision: 0\nAttempt 1: gpt-5.6-luna · completed\nAttempt 2: unknown model · timed_out\nCandidate: candidate\nPatch: /patch\nOutput: /out\nErrors: /err"
    );
    assert_eq!(pending_question(&r).unwrap().id, "q");
    r.phase3.as_mut().unwrap().questions[0].state = QuestionState::Answered;
    assert!(pending_question(&r).is_none());
}

#[test]
fn only_a_single_candidate_can_be_reviewed() {
    let mut r = run();
    assert_eq!(review_command(&r), Err("delivery has no single candidate".to_string()));
    r.candidates = vec![candidate()];
    r.state_revision = 7;
    let command = review_command(&r).unwrap();
    assert_eq!(
        (command.run_id.as_str(), command.candidate_id.as_str(), command.revision),
        ("01TEST", "candidate", 7)
    );
    r.candidates.push(candidate());
    assert!(review_command(&r).is_err());
}

#[test]
fn texts_are_cut_between_clusters_and_stay_on_one_line() {
    assert_eq!(clip("short", 10), "short");
    assert_eq!(clip("a\nb\tc", 10), "a b c");
    assert_eq!(clip("hello world", 8), "hello...");
    assert_eq!(clip("界界界界", 6), "界...");
    assert_eq!(clip("e\u{301}e\u{301}e\u{301}e\u{301}", 4), "e\u{301}e\u{301}e\u{301}e\u{301}");
    assert_eq!(clip("e\u{301}e\u{301}e\u{301}e\u{301}e\u{301}", 4), "e\u{301}...");
    assert_eq!(clip("hello", 2), "..");
    assert_eq!(clip("hello", 0), "");
    assert_eq!(goal_heading("Fix cache", 80), "Goal  Fix cache");
    assert_eq!(goal_heading_marked("x", 80, true, true), ">> Goal  x");
    assert_eq!(goal_heading_marked("x", 80, false, false), "Goal  x");
    assert_eq!(hint_with_mode(true, false, "Esc"), "[review before apply] Shift+Tab - Esc");
    assert_eq!(hint_with_mode(false, true, ""), "⏵⏵ auto-apply on · Shift+Tab to pause");
    assert_eq!(display_text("a… · → —\x1b[0m", true), "a... - -> -");
    assert_eq!(display_text("a…", false), "a…");
    assert_eq!(
        launch_accounting(&run(), Some((3, 1))),
        "Launches 3 recorded · 1 uncertain · limit 2"
    );
    assert_eq!(launch_accounting(&run(), None), "Launch count unavailable · limit 2");
    let v = with_validity(Decision::Stop, true, 0, None).coherence.unwrap().validity.unwrap();
    assert_eq!(coherence_text(&v), "Coherence: STOP — this patch is already in the source");
}

#[test]
fn styling_keeps_every_line() {
    let palette = Theme::from_hints(false, Some("16"), None, None, None);
    let body = "  ┌──╮  DISPATCH\n━━   ┃  raylib\n━━━  ┃  flow\n━━└──╯\n● goal ━━ ○ x\nGoal  x\nVerification passed\nother\n==";
    let lines = styled_body(body, &palette);
    let back = lines.iter().map(text_of).collect::<Vec<_>>().join("\n");
    assert_eq!(back, body);
    assert!(lines[0].spans[1].style.bold);
    assert_eq!(lines[1].spans[0].style, palette.accent);
    assert_eq!(lines[2].spans[0].style, palette.success);
    assert_eq!(lines[3].spans[0].style, palette.warning);
    assert_eq!(lines[4].spans[0].style, palette.accent);
    assert_eq!(lines[4].spans[1].style, palette.inactive);
    assert!(lines[5].style.bold);
    assert_eq!(lines[6].style, palette.success);
    assert_eq!(lines[7].style, palette.foreground);
}

fn wide() -> Measured {
    let cluster = |text: &str, cells| Cluster { text: text.into(), cells };
    Measured {
        clusters: vec![
            cluster("世", 2),
            cluster("e\u{301}", 1),
            cluster("a", 1),
            cluster("界", 2),
            cluster("b", 1),
        ],
        cells: 7,
    }
}

#[test]
fn a_measured_line_is_cut_between_its_clusters() {
    let line = "世e\u{301}a界b";
    assert_eq!(cut_line(line, &wide(), 7), line);
    assert_eq!(cut_line(line, &wide(), 6), "世e\u{301}...");
    assert_eq!(cut_line(line, &wide(), 5), "世...");
    assert_eq!(cut_line(line, &wide(), 4), "...");
    assert_eq!(cut_line(line, &wide(), 2), "..");
    assert_eq!(cut_line(line, &wide(), 0), "");
    assert_eq!(clip(line, 6), "世e\u{301}...");
}

#[test]
fn a_measured_path_keeps_its_end() {
    let line = "世e\u{301}a界b";
    assert_eq!(cut_end(line, &wide(), 7), line);
    assert_eq!(cut_end(line, &wide(), 6), "...界b");
    assert_eq!(cut_end(line, &wide(), 5), "...b");
    assert_eq!(cut_end(line, &wide(), 1), ".");
}

#[test]
fn only_what_differs_is_emphasized() {
    let words = |list: &[&str]| list.iter().map(|w| w.to_string()).collect::<Vec<_>>();
    let style = Style { fg: None, bold: false, underlined: false };
    let line: Vec<char> = "-abxcd".chars().collect();
    let drawn = emphasize(
        &line,
        &words(&["a", "b", "x", "c", "d"]),
        &words(&["a", "b", "y", "z", "c", "d"]),
        style,
    );
    let parts: Vec<(&str, bool)> =
        drawn.spans.iter().map(|s| (s.text.as_str(), s.style.bold && s.style.underlined)).collect();
    assert_eq!(parts, [("-ab", false), ("x", true), ("cd", false)]);
}
