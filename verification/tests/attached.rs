use dispatch::digest::text_hash;
use dispatch::orchestrator::apply::{
    admit_apply, apply, apply_locked, auto_apply, remember_validity, source_lock, ApplyAuthority,
    ApplyOutcome, ApplyReport, Attempt,
};
use dispatch::orchestrator::attach::{
    allow_checks, auto_apply_outcome, banner, before_removal, create, decide_start, fail_finish,
    find_active_attachment, finish, finish_locked, finish_summary, freeze_removed_workspace,
    mark_released, note_workspace_gone, poll_interval, record_agent, record_session_end,
    record_session_start, release_workspace, working_line, workspace_branch, wrapped_command,
    wrapped_end, wrapped_exit, wrapped_step,
    AttachConfidence, AttachFacts, AttachIds, AttachRequest, FinishReason, ManagedWorkspace,
    Placement, Release, RuntimeSession, RuntimeStart, Start, WorkspaceOwner, WrappedAction,
    WrappedEvent, MAX_SESSIONS,
};
use dispatch::orchestrator::background::{
    describe, key, lock_path, log_tail, new_record, read_record, record_path, start_arguments,
    stop, stopped, watcher, StartFacts, StartStep, StopStep, Watcher,
};
use dispatch::process::{IdentityState, ProcessIdentity};
use dispatch::record::{
    ApplicationState, AppliedBy, CandidateStatus, Decision, DiffStats, LifecycleState,
    ReviewState, RunOutcome, RunPhase, RunRecord, RunStatus, Validity, VerificationState,
    WaitingOn, WorkResult,
};
use dispatch::runtime::{
    claude, ingest, removal_notice, tracking_notice, validate, workspace_lock, EventKind, Ingest,
    Reply, RuntimeEvent,
};

fn identity(pid: u32) -> ProcessIdentity {
    ProcessIdentity { pid, start: Some("1".into()), boot: Some("b".into()), process_group: None }
}

fn request() -> AttachRequest {
    AttachRequest {
        workspace: "/repo-worktree".into(),
        root: None,
        task: None,
        agent: None,
        pid: None,
        command: None,
        allow_unsafe_local: false,
        auto_apply: false,
        runtime: None,
    }
}

fn facts() -> AttachFacts {
    AttachFacts {
        workspace: "/repo-worktree".into(),
        root: None,
        repo_key: Some("k".into()),
        main_worktree: Some("/repo".into()),
        root_key: Some("k".into()),
        merge_base: Some("abc".into()),
        checks_configured: false,
        attached_as: None,
    }
}

fn session(provider: &str, id: &str) -> RuntimeSession {
    RuntimeSession {
        provider: provider.into(),
        session_id: id.into(),
        source: "startup".into(),
        model: None,
        started_at: 1,
        ended_at: None,
        end_reason: None,
    }
}

fn placement(workspace: &str, start: Start) -> Placement {
    Placement {
        workspace: workspace.into(),
        root: "/repo".into(),
        repo_key: Some("k".into()),
        start,
        start_commit: "abc".into(),
        managed: None,
        baseline_path: "/baseline".into(),
        baseline_commit: "base".into(),
        source_fingerprint: "print".into(),
    }
}

fn ids() -> AttachIds {
    AttachIds {
        run: "01RUNRUNRUN".into(),
        candidate: "c".into(),
        attempt: "a".into(),
        owner: identity(1),
        agent_process: None,
        task_path: "/task".into(),
        stdout_path: "/out".into(),
        stderr_path: "/err".into(),
        diff_path: "/diff".into(),
        telemetry_path: "/raw".into(),
    }
}

fn attached() -> RunRecord {
    create(request(), placement("/repo-worktree", Start::MergeBase("abc".into())), ids(), "agent", 1_000_000)
}

fn ready(run: &RunRecord) -> RunOutcome {
    RunOutcome {
        lifecycle: LifecycleState::Finished,
        work_result: WorkResult::Ready,
        verification: VerificationState::Passed,
        review: ReviewState::Pending,
        phase: RunPhase::Reviewing,
        ..run.outcome
    }
}

#[test]
fn attach_requests_start_where_they_may_or_say_why_not() {
    assert_eq!(
        decide_start(&request(), &facts()),
        Ok(("/repo".to_string(), Start::MergeBase("abc".into())))
    );
    let refused = |r: AttachRequest, f: AttachFacts| decide_start(&r, &f).unwrap_err();
    assert_eq!(
        refused(request(), AttachFacts { main_worktree: None, ..facts() }),
        "--root is required for a plain directory"
    );
    assert!(refused(request(), AttachFacts { workspace: "/repo".into(), ..facts() })
        .starts_with("attach needs a separate worktree"));
    assert_eq!(
        refused(request(), AttachFacts { root_key: None, ..facts() }),
        "workspace belongs to a different repository than the integration root"
    );
    assert_eq!(
        refused(request(), AttachFacts { merge_base: None, ..facts() }),
        "no common history between the workspace and the integration root"
    );
    assert_eq!(
        refused(request(), AttachFacts { repo_key: None, ..facts() }),
        "a plain directory can be attached only by wrapping the agent command"
    );
    assert_eq!(
        refused(request(), AttachFacts { checks_configured: true, ..facts() }),
        "finish runs your checks.verify on the host; pass --allow-unsafe-local"
    );
    assert_eq!(
        refused(request(), AttachFacts { attached_as: Some("01X".into()), ..facts() }),
        "workspace already attached as 01X"
    );
    let wrapped = AttachRequest { command: Some(vec!["agent".into()]), ..request() };
    assert_eq!(
        decide_start(&wrapped, &AttachFacts { workspace: "/repo".into(), ..facts() }),
        Ok(("/repo".to_string(), Start::Managed))
    );
    assert_eq!(
        decide_start(&wrapped, &AttachFacts { repo_key: None, ..facts() }).unwrap().1,
        Start::Snapshot
    );
}

#[test]
fn attached_work_records_where_it_came_from() {
    let r = attached();
    let a = r.attachment.as_ref().unwrap();
    assert_eq!(r.task, "attached work in repo-worktree");
    assert_eq!(a.confidence, AttachConfidence::Full);
    assert_eq!(a.workspace_owner, WorkspaceOwner::User);
    assert_eq!(r.outcome.lifecycle, LifecycleState::Working);
    assert_eq!(r.candidates.len(), 1);
    assert_eq!(
        banner(&r.id, a)[3],
        "S0         commit abc (merge base), full confidence"
    );
    let start = |workspace: &str, resumed| {
        let runtime = RuntimeStart { session: session("codex", "s"), resumed };
        create(
            AttachRequest { runtime: Some(runtime), ..request() },
            placement(workspace, Start::Runtime),
            ids(),
            "agent",
            0,
        )
    };
    let own = start("/repo/.agent/worktrees/x", false).attachment.unwrap();
    assert_eq!(own.workspace_owner, WorkspaceOwner::Runtime);
    assert_eq!(own.confidence, AttachConfidence::Full);
    assert_eq!(own.sessions.len(), 1);
    let named = start("/repo/.codex/worktrees/x", false).attachment.unwrap();
    assert_eq!(named.workspace_owner, WorkspaceOwner::User);
    let other = start("/elsewhere", true).attachment.unwrap();
    assert_eq!(other.workspace_owner, WorkspaceOwner::User);
    assert_eq!(other.confidence, AttachConfidence::Partial);
    assert_eq!(workspace_branch("01ABC"), "dispatch/01abc");
    assert_eq!(workspace_branch("É"), "dispatch/é");
    assert_eq!(wrapped_exit(Some(3)), 3);
    assert_eq!(wrapped_exit(None), 1);
    assert!(wrapped_command(&request()).is_err());
}

#[test]
fn sessions_are_recorded_once_and_bounded() {
    let mut r = attached();
    assert!(record_session_start(&mut r, session("agent", "one")));
    assert!(!record_session_start(&mut r, session("agent", "one")));
    assert!(record_session_end(&mut r, "agent", "one", "exit", 9));
    assert!(!record_session_end(&mut r, "agent", "one", "exit", 9));
    assert_eq!(r.outcome.lifecycle, LifecycleState::Working);
    assert!(record_session_start(&mut r, session("agent", "one")));
    for i in 0..MAX_SESSIONS {
        record_session_start(&mut r, session("agent", &format!("s{i}")));
    }
    let sessions = &r.attachment.as_ref().unwrap().sessions;
    assert_eq!(sessions.len(), MAX_SESSIONS);
    assert_eq!(sessions.last().unwrap().session_id, format!("s{}", MAX_SESSIONS - 1));
    assert_eq!(find_active_attachment(&vec![r.clone()], "/repo-worktree"), Some(0));
    assert_eq!(find_active_attachment(&vec![r], "/other"), None);
}

#[test]
fn finished_work_becomes_an_ordinary_result() {
    let mut r = attached();
    assert_eq!(finish(&r, "/kept"), Ok(()));
    let outcome = ready(&r);
    let stats = DiffStats { files_changed: 2, lines_added: 3, lines_removed: 1 };
    finish_locked(&mut r, stats, None, FinishReason::ProcessExit { code: Some(0) }, outcome, 3_500_000);
    assert_eq!(r.status, RunStatus::ReadyForEvaluation);
    assert_eq!(r.candidates[0].status, CandidateStatus::Completed);
    assert_eq!(r.candidates[0].duration_ms, 2500);
    assert_eq!(r.attempts[0].outcome, "completed");
    assert_eq!(
        finish(&r, "/kept"),
        Err("attached work 01RUNRUNRUN is not active".to_string())
    );
    assert_eq!(finish_summary(&r, "passed")[0], "\nReady for review\n");
    let mut failed = attached();
    let outcome = RunOutcome { work_result: WorkResult::Failed, ..ready(&failed) };
    fail_finish(&mut failed, "no diff", FinishReason::Explicit, outcome, 5);
    assert_eq!(failed.status, RunStatus::Failed);
    assert_eq!(failed.candidates[0].error.as_deref(), Some("no diff"));
    assert!(allow_checks(&failed, true, false).is_err());
    assert!(allow_checks(&failed, true, true).is_ok());
}

#[test]
fn removed_workspaces_keep_or_lose_their_work() {
    let mut kept = attached();
    assert_eq!(before_removal(&kept), Ok(None));
    let stats = DiffStats { files_changed: 2, lines_added: 1, lines_removed: 0 };
    assert_eq!(freeze_removed_workspace(&mut kept, stats, 7), 2);
    assert_eq!(before_removal(&kept), Ok(Some(2)));
    assert_eq!(finish(&kept, "/kept"), Ok(()));
    let mut empty = attached();
    let none = DiffStats { files_changed: 0, lines_added: 0, lines_removed: 0 };
    freeze_removed_workspace(&mut empty, none, 7);
    assert_eq!(empty.outcome.work_result, WorkResult::Cancelled);
    assert_eq!(empty.attempts[0].outcome, "no_changes");
    let mut lost = attached();
    assert!(!note_workspace_gone(&mut lost, true, 7));
    assert!(note_workspace_gone(&mut lost, false, 7));
    assert!(finish(&lost, "/kept").unwrap_err().contains("/kept"));
    assert!(before_removal(&empty).is_err());
}

#[test]
fn only_workspaces_that_were_made_are_removed() {
    let mut r = attached();
    assert_eq!(release_workspace(&r, "/state/workspaces"), Ok(Release::Nothing));
    let a = r.attachment.as_mut().unwrap();
    a.managed = Some(ManagedWorkspace { branch: Some("dispatch/x".into()), removed: false });
    assert!(release_workspace(&r, "/state/workspaces").is_err());
    r.attachment.as_mut().unwrap().workspace = "/state/workspaces/x".into();
    assert_eq!(
        release_workspace(&r, "/state/workspaces"),
        Ok(Release::Linked("dispatch/x".into()))
    );
    assert_eq!(
        working_line(r.attachment.as_ref().unwrap()).as_deref(),
        Some("Working in /state/workspaces/x on branch dispatch/x; your checkout is not touched.")
    );
    mark_released(&mut r);
    assert_eq!(release_workspace(&r, "/state/workspaces"), Ok(Release::Nothing));
}

fn validity(decision: Decision, at: i64) -> Validity {
    Validity {
        decision,
        world_changed: true,
        world_digest: "w".into(),
        changed_files: 1,
        evaluated_at: at,
        reasons: vec![],
    }
}

fn deliverable() -> RunRecord {
    let mut r = attached();
    let outcome = ready(&r);
    let stats = DiffStats { files_changed: 1, lines_added: 1, lines_removed: 0 };
    finish_locked(&mut r, stats, None, FinishReason::Explicit, outcome, 2);
    r
}

#[test]
fn work_is_applied_once_and_only_people_accept() {
    let report = ApplyReport { candidate_label: "A".into(), files_changed: 1 };
    let patched = Attempt::Patched { report: report.clone(), validity: None };
    let mut r = deliverable();
    assert_eq!(
        apply(&mut r, "A".into(), patched.clone()),
        Ok("Applied Candidate A to /repo (1 file(s) changed).".to_string())
    );
    assert_eq!(r.outcome.review, ReviewState::Accepted);
    assert_eq!(r.outcome.applied_by, Some(AppliedBy::Human));
    let before = r.clone();
    assert_eq!(
        apply(&mut r, "A".into(), patched.clone()),
        Err("run 01RUNRUNRUN is applied; apply requires a completed, unapplied run".to_string())
    );
    assert_eq!(r, before);
    let mut policy = deliverable();
    apply_locked(&mut policy, "A".into(), patched, ApplyAuthority::AutoApply).unwrap();
    assert_eq!(policy.outcome.review, ReviewState::Pending);
    assert_eq!(policy.outcome.applied_by, Some(AppliedBy::AutoApply));
    let mut drifted = deliverable();
    let failed = Attempt::Failed { message: "the source changed".into() };
    assert!(apply(&mut drifted, "A".into(), failed).is_err());
    assert_eq!(drifted.outcome.application, ApplicationState::BlockedBySourceDrift);
    assert_eq!(drifted.outcome.review, ReviewState::Pending);
    let mut broken = deliverable();
    let failed = Attempt::Failed { message: "disk full".into() };
    assert_eq!(apply(&mut broken, "A".into(), failed), Err("disk full".to_string()));
    assert_eq!(broken.outcome.application, ApplicationState::Failed);
    let mut blocked = deliverable();
    let refused =
        Attempt::Blocked { message: "stale".into(), validity: validity(Decision::Stop, 5) };
    assert!(apply(&mut blocked, "A".into(), refused).is_err());
    assert_eq!(blocked.coherence.as_ref().unwrap().first_invalid_at, Some(5));
    assert_eq!(
        auto_apply(&deliverable()),
        ApplyOutcome::Skipped { reason: "not_ready".into() }
    );
    assert!(admit_apply(&before, &vec![], &vec![], "").is_err());
    assert_eq!(source_lock("/repo"), format!("source-{}.lock", text_hash("/repo")));
    let line = auto_apply_outcome(
        &deliverable(),
        &ApplyOutcome::Applied { report, validity: None },
    );
    assert_eq!(
        line,
        "Auto-applied Candidate A to /repo (1 file(s) changed). Review not performed."
    );
}

#[test]
fn the_first_invalid_time_stays() {
    let mut r = deliverable();
    remember_validity(&mut r, validity(Decision::Continue, 1));
    assert_eq!(r.coherence.as_ref().unwrap().first_invalid_at, None);
    remember_validity(&mut r, validity(Decision::Refresh, 2));
    remember_validity(&mut r, validity(Decision::Stop, 3));
    let record = r.coherence.as_ref().unwrap();
    assert_eq!(record.first_invalid_at, Some(2));
    assert_eq!(record.validity.as_ref().unwrap().evaluated_at, 3);
}

#[test]
fn only_the_recorded_process_is_signalled() {
    let record = new_record("/repo", identity(9), 1, "1.0", true);
    assert_eq!(read_record(Some(record.clone()), "/other"), None);
    let held = watcher(true, Some(record.clone()), "/repo");
    assert_eq!(stop("/repo", &held, IdentityState::ExactLive, "/lock"), StopStep::Signal(9));
    assert!(matches!(
        stop("/repo", &held, IdentityState::Reused, "/lock"),
        StopStep::Refused(_)
    ));
    let unknown = watcher(true, None, "/repo");
    assert!(matches!(
        stop("/repo", &unknown, IdentityState::ExactLive, "/lock"),
        StopStep::Refused(_)
    ));
    assert_eq!(
        stop("/repo", &Watcher::NotWatched, IdentityState::Gone, "/lock"),
        StopStep::NotWatched("Not watching /repo.".into())
    );
    assert_eq!(
        describe(&Ok(held), "noon", "1.0"),
        "watched in the background since noon (pid 9)"
    );
    assert_eq!(describe(&Err("io".into()), "", ""), "watching unknown: io");
    assert_eq!(record_path("/repo"), format!("watchers/{}.json", key("/repo")));
    assert_eq!(key("/repo"), text_hash("/repo"));
    assert!(lock_path("/repo").contains(&key("/repo")));
    assert_eq!(
        start_arguments("/state", "/repo", 2),
        ["--state-dir", "/state", "-v", "-v", "serve", "--background", "--root", "/repo"]
    );
    assert_eq!(log_tail("1\n2\n3\n4\n5\n6\n"), "2\n3\n4\n5\n6");
    assert_eq!(stopped("/repo", 9, true, false), None);
    assert_eq!(
        stopped("/repo", 9, true, true),
        Some(Err("the watcher for /repo (pid 9) did not stop within 10 s".to_string()))
    );
    assert!(stopped("/repo", 9, false, true).unwrap().is_ok());
}

#[test]
fn a_background_start_waits_until_its_child_watches() {
    let record = new_record("/repo", identity(9), 1, "1.0", true);
    let facts = StartFacts {
        record: Some((record, IdentityState::ExactLive)),
        child: 9,
        exited: false,
        watched: false,
        recorded: false,
        description: "watched".into(),
        log: "boom\n".into(),
        log_path: "/log".into(),
        expired: false,
    };
    let step = |f: &StartFacts| dispatch::orchestrator::background::start("/repo", f);
    assert!(matches!(step(&facts), StartStep::Done(_)));
    let other = StartFacts { child: 8, ..facts.clone() };
    assert_eq!(step(&other), StartStep::Wait);
    let won = StartFacts { exited: true, watched: true, recorded: true, ..other.clone() };
    assert_eq!(step(&won), StartStep::Done("Already watching /repo: watched".into()));
    let died = StartFacts { exited: true, ..other.clone() };
    assert_eq!(
        step(&died),
        StartStep::Failed("Dispatch could not start watching /repo:\nboom".into())
    );
    let late = StartFacts { expired: true, ..other };
    assert!(matches!(step(&late), StartStep::Failed(_)));
}

fn event(kind: EventKind) -> RuntimeEvent {
    RuntimeEvent {
        provider: "agent".into(),
        session_id: "s-1".into(),
        cwd: "/repo-worktree".into(),
        model: None,
        kind,
    }
}

#[test]
fn sessions_are_followed_only_in_watched_worktrees() {
    let start = || event(EventKind::Start { source: "startup".into(), resumed: false });
    let seen = |watched, place| ingest(start(), Some(place), Some("/repo"), watched, "agent", 4);
    assert!(matches!(seen(true, "/repo-worktree"), Ok(Ingest::Start(_, false))));
    assert_eq!(seen(false, "/repo-worktree"), Ok(Ingest::Reply(Reply::Silent)));
    let codex = RuntimeEvent { provider: "codex".into(), ..start() };
    assert_eq!(
        ingest(codex, Some("/repo"), Some("/repo"), true, "agent", 4),
        seen(true, "/repo")
    );
    match seen(true, "/repo") {
        Ok(Ingest::Reply(Reply::Notice(text))) => {
            assert!(text.ends_with("(agent --worktree) or with dispatch attach -- agent."))
        }
        other => panic!("{other:?}"),
    }
    assert_eq!(
        ingest(event(EventKind::WorkspaceRemoved), Some("/x"), None, false, "agent", 4),
        Ok(Ingest::Removed)
    );
    assert_eq!(ingest(start(), None, None, true, "agent", 4), Ok(Ingest::Reply(Reply::Silent)));
    assert_eq!(
        ingest(start(), Some("/x"), None, true, "agent", 4),
        Err("the checkout lost its repository".to_string())
    );
    let bad = |e: RuntimeEvent| validate(&e).unwrap_err();
    assert_eq!(bad(RuntimeEvent { session_id: "".into(), ..start() }), "invalid session id");
    assert_eq!(
        bad(RuntimeEvent { cwd: "relative".into(), ..start() }),
        "the working directory must be an absolute path"
    );
    assert_eq!(
        bad(event(EventKind::End { reason: "Loud!".into() })),
        "invalid event detail"
    );
    assert_eq!(
        bad(RuntimeEvent { model: Some("a b".into()), ..start() }),
        "invalid model"
    );
    let q = dispatch::runtime::start("/repo", "/repo-worktree", session("agent", "s"), true);
    assert!(!q.allow_unsafe_local && !q.auto_apply && q.command.is_none());
    assert_eq!(q.task.as_deref(), Some("agent session in repo-worktree"));
    assert_eq!(workspace_lock("/w"), format!("workspace-{}.lock", text_hash("/w")));
    assert_eq!(
        tracking_notice("0123456789"),
        "Dispatch is tracking this worktree as Work 01234567; see it with dispatch watch."
    );
    assert!(removal_notice("0123456789", 0).ends_with("held no changes."));
}

#[test]
fn hooks_are_read_and_never_fail() {
    let input = |name: &str, source: Option<&str>| claude::Input {
        hook_event_name: name.into(),
        session_id: "s".into(),
        cwd: "/w".into(),
        source: source.map(str::to_owned),
        reason: None,
        model: None,
    };
    assert_eq!(
        claude::parse("agent", input("SessionStart", Some("resume"))).unwrap().kind,
        EventKind::Start { source: "resume".into(), resumed: true }
    );
    assert_eq!(
        claude::parse("agent", input("SessionStart", None)).unwrap().kind,
        EventKind::Start { source: "startup".into(), resumed: false }
    );
    assert_eq!(
        claude::parse("agent", input("SessionEnd", None)).unwrap().kind,
        EventKind::End { reason: "other".into() }
    );
    assert_eq!(claude::parse("agent", input("PreToolUse", None)), None);
    assert_eq!(claude::handle(&Ok(Reply::Silent)), "");
    assert_eq!(
        claude::handle(&Ok(Reply::Notice("a\"b\n".into()))),
        "{\"systemMessage\":\"a\\\"b\\n\"}"
    );
    assert_eq!(
        claude::handle(&Err("gone".into())),
        "{\"systemMessage\":\"Dispatch could not track this session: gone\"}"
    );
    assert!(claude::check_size(64 * 1024).is_ok());
    assert_eq!(
        claude::check_size(64 * 1024 + 1),
        Err("hook input is larger than 65536 bytes".to_string())
    );
}

#[test]
fn an_attached_run_waits_on_nothing() {
    assert_eq!(attached().outcome.waiting_on, WaitingOn::Nothing);
}

#[test]
fn a_wrapper_passes_signals_on_and_a_verdict_stops_nothing() {
    assert_eq!(
        wrapped_step(WrappedEvent::Exited(Some(2))),
        WrappedAction::Finish(FinishReason::ProcessExit { code: Some(2) })
    );
    assert_eq!(wrapped_step(WrappedEvent::Terminated), WrappedAction::Terminate);
    assert_eq!(wrapped_step(WrappedEvent::HungUp), WrappedAction::HangUp);
    let v = validity(Decision::Stop, 1);
    assert_eq!(wrapped_step(WrappedEvent::Verdict(v.clone())), WrappedAction::Store(v));
    assert_eq!((poll_interval(None), poll_interval(Some(0)), poll_interval(Some(3))), (10, 1, 3));
    let mut r = attached();
    record_agent(&mut r, identity(5));
    assert_eq!(r.attachment.as_ref().unwrap().agent_process, Some(identity(5)));
    assert_eq!(
        wrapped_end(&r, None),
        "Attached work 01RUNRUNRUN finished; next: dispatch check 01RUNRUNRUN"
    );
}
