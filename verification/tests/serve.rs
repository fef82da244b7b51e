use dispatch::orchestrator::attach::{
    AttachCapabilities, AttachConfidence, AttachmentRecord, BaselineProvenance, OwnerState,
    WorkspaceOwner,
};
use dispatch::orchestrator::serve::{
    adopt, awaits_review, follows, is_quiet, live_owner_state, needs_redraw, ready_for_auto_apply,
    stored_decision, tells_error, view_rows, worth_storing, Cost, Evaluation, Owner, PolicyApply,
    ProjectView, Recheck, Tick, REDRAW_MILLIS,
};
use dispatch::process::{
    identity_state, process_identity, process_start, IdentityState, ProcessIdentity,
};
use dispatch::record::{
    ApplicationState, LifecycleState, ReviewState, RunMode, RunOutcome, RunPhase, RunRecord,
    RunStatus, VerificationState, WaitingOn, WorkResult,
};

fn run(id: &str) -> RunRecord {
    RunRecord {
        id: id.into(),
        task: "t".into(),
        exact_prompt: "t".into(),
        source_path: "/source".into(),
        source_fingerprint: "f".into(),
        baseline_path: "/baseline".into(),
        baseline_commit: "abc".into(),
        status: RunStatus::ReadyForEvaluation,
        mode: RunMode::Native,
        state_revision: 0,
        outcome: RunOutcome {
            lifecycle: LifecycleState::Finished,
            work_result: WorkResult::Ready,
            verification: VerificationState::NotRun,
            review: ReviewState::Pending,
            application: ApplicationState::NotApplied,
            phase: RunPhase::Reviewing,
            waiting_on: WaitingOn::Nothing,
            applied_by: None,
        },
        created_at: 1_789_603_200_000_000,
        completed_at: Some(1_789_603_800_000_000),
        execution_backend: "local".into(),
        unsafe_local: false,
        baseline_checks: vec![],
        candidates: vec![],
        attempts: vec![],
        allocation: None,
        coherence: None,
        applied_candidate: None,
        attachment: None,
        capacity: None,
        admission: None,
        phase3: None,
    }
}

#[test]
fn live_owner_state_maps_identity_outcomes() {
    assert_eq!(live_owner_state(None), OwnerState::Unknown);
    assert_eq!(live_owner_state(Some(IdentityState::ExactLive)), OwnerState::Live);
    assert_eq!(live_owner_state(Some(IdentityState::Gone)), OwnerState::Gone);
    assert_eq!(live_owner_state(Some(IdentityState::Reused)), OwnerState::Gone);
    assert_eq!(live_owner_state(Some(IdentityState::Unknown)), OwnerState::Unknown);
}

#[test]
fn a_result_awaiting_review_stays_in_the_view() {
    let waiting = run("waiting");
    let mut reviewed = waiting.clone();
    reviewed.id = "reviewed".into();
    reviewed.outcome.review = ReviewState::Rejected;
    let runs = vec![waiting, reviewed];
    let now = 1_799_603_200_000_000;
    let rows: Vec<&str> =
        view_rows(&runs, now).iter().map(|i| runs[*i].id.as_str()).collect();
    assert_eq!(rows, ["waiting"]);
}

#[test]
fn current_process_identity_is_exact_when_supported() {
    let pid = 4242;
    let stat = "4242 (dispatch) S 1 4242 4242 0 -1 4194304 1 2 3 4 5 6 7 8 20 0 1 0 987654 0";
    let identity = process_identity(pid, Some(stat), Some("boot\n"));
    assert_eq!(identity.pid, pid);
    assert_eq!(identity.start.as_deref(), Some("987654"));
    assert_eq!(identity_state(&identity, true, &identity), IdentityState::ExactLive);
    let mut later = identity.clone();
    later.start = Some("987655".into());
    assert_eq!(identity_state(&identity, true, &later), IdentityState::Reused);
    assert_eq!(identity_state(&identity, false, &identity), IdentityState::Gone);
    let unknown = process_identity(pid, None, None);
    assert_eq!(identity_state(&unknown, true, &identity), IdentityState::Unknown);
    assert_eq!(
        unknown,
        ProcessIdentity { pid, start: None, boot: None, process_group: Some(4242) }
    );
    assert_eq!(identity.boot.as_deref(), Some("boot"));
    assert_eq!(process_start("1 (a) b) S 1"), None);
}

#[test]
fn an_owner_checks_a_world_once_until_it_moves() {
    let mut owner = Owner::new();
    assert!(owner.observe(Some("a".into())));
    assert!(!owner.observe(Some("a".into())));
    assert!(owner.observe(Some("b".into())));
    assert!(!owner.observe(None));
    assert_eq!(owner.last_signal.as_deref(), Some("b"));
    assert!(owner.needs_evaluation("run", "w1", false));
    let mut cost = Cost {
        signal: 1,
        load: 2,
        follow: 3,
        evaluate: 4,
        recheck: 5,
        apply: 6,
        runs: 7,
        followed: 8,
        evaluated: 0,
        rechecked: 0,
    };
    assert!(cost.idle());
    cost.evaluated = 9;
    assert!(!cost.idle());
    assert_eq!(
        cost.text(),
        "signal 1 ms · 7 runs loaded in 2 ms · 8 followed in 3 ms · 9 evaluated in 4 ms · 0 rechecked in 5 ms · auto-apply 6 ms"
    );
    let mut tick = Tick {
        moved: false,
        adopted: false,
        persisted: false,
        applied: false,
        digest: None,
        error: None,
        cost,
    };
    tick.report("first");
    tick.report("second");
    assert_eq!(tick.error.as_deref(), Some("first"));
    assert!(!tick.changed());
    tick.adopted = true;
    assert!(tick.changed());
}

fn attached(owner_state: OwnerState) -> RunRecord {
    let mut r = run("attached");
    r.mode = RunMode::Attached;
    r.status = RunStatus::Running;
    r.outcome.lifecycle = LifecycleState::Working;
    r.outcome.work_result = WorkResult::Pending;
    r.outcome.review = ReviewState::NotRequested;
    r.completed_at = None;
    r.attachment = Some(AttachmentRecord {
        version: 1,
        workspace: "/repo-worktree".into(),
        integration_root: "/repo".into(),
        repo_key: None,
        provenance: BaselineProvenance::SnapshotAtAttach,
        confidence: AttachConfidence::Partial,
        agent: None,
        command: None,
        owner: None,
        agent_process: None,
        owner_state,
        capabilities: AttachCapabilities {
            observe: true,
            signal: false,
            control: false,
            integrate: true,
        },
        attached_at: 0,
        finished_at: None,
        finish_reason: None,
        workspace_owner: WorkspaceOwner::User,
        managed: None,
        sessions: vec![],
        workspace_removed: None,
    });
    r
}

#[test]
fn orphaned_work_is_adopted_once() {
    let mut r = attached(OwnerState::Live);
    assert!(!adopt(&mut r, Some(IdentityState::ExactLive)));
    assert!(adopt(&mut r, Some(IdentityState::Gone)));
    assert_eq!(r.attachment.as_ref().unwrap().owner_state, OwnerState::Adopted);
    let once = r.clone();
    assert!(!adopt(&mut r, Some(IdentityState::Gone)));
    assert_eq!(r, once);
}

#[test]
fn a_view_prints_a_line_only_when_it_changed() {
    let mut view = ProjectView::new();
    assert!(view.is_new("a", "line"));
    assert!(view.new_header(Some("header")));
    assert!(!view.new_header(Some("header")));
    assert!(view.new_header(Some("other")));
}

fn tick() -> Tick {
    Tick {
        moved: false,
        adopted: false,
        persisted: false,
        applied: false,
        digest: None,
        error: None,
        cost: Cost {
            signal: 0,
            load: 0,
            follow: 0,
            evaluate: 0,
            recheck: 0,
            apply: 0,
            runs: 0,
            followed: 0,
            evaluated: 0,
            rechecked: 0,
        },
    }
}

#[test]
fn evaluated_work_rests_and_failures_are_tried_again() {
    let mut owner = Owner::new();
    owner.observe(Some("world".into()));
    let mut t = tick();
    let failed = Evaluation::Failed { digest: None, error: "no git".into() };
    owner.take_evaluation(&mut t, "run", "w1".into(), failed);
    assert_eq!(t.error.as_deref(), Some("no git"));
    assert!(owner.needs_evaluation("run", "w1", false));
    assert!(is_quiet(&t));
    owner.take_evaluation(&mut t, "run", "w1".into(), Evaluation::Stored { digest: "d".into() });
    assert!(t.persisted && t.cost.evaluated == 1);
    assert_eq!(t.digest.as_deref(), Some("d"));
    assert!(!owner.needs_evaluation("run", "w1", false));
    assert!(owner.needs_evaluation("run", "w1", true));
    assert!(owner.needs_evaluation("run", "w2", false));
    let unstored = Evaluation::NotStored { digest: "e".into(), error: "busy".into() };
    owner.take_evaluation(&mut t, "other", "w".into(), unstored);
    assert_eq!((t.digest.as_deref(), t.error.as_deref()), (Some("d"), Some("no git")));
    assert!(owner.needs_evaluation("other", "w", false));
    owner.forget_work(&vec!["other".into()]);
    assert!(owner.needs_evaluation("run", "w1", false));
}

#[test]
fn a_waiting_result_is_checked_once_for_each_world() {
    let mut owner = Owner::new();
    let r = run("waiting");
    assert!(awaits_review(&r));
    assert!(!owner.needs_check(&r));
    owner.observe(Some("world".into()));
    assert!(owner.needs_check(&r));
    let mut t = tick();
    owner.take_check(&mut t, "waiting", Recheck::Busy);
    assert!(owner.needs_check(&r));
    owner.take_check(&mut t, "waiting", Recheck::Stored);
    assert!(!owner.needs_check(&r));
    assert!(t.persisted && t.cost.rechecked == 2);
    owner.forget_checked(&vec![]);
    assert!(owner.needs_check(&r));
    assert_eq!(stored_decision(&r), None);
    assert!(worth_storing(None, false));
}

#[test]
fn only_ready_attached_work_is_applied_by_policy() {
    let mut ready = attached(OwnerState::Live);
    assert!(follows(&ready, Some(IdentityState::Gone)));
    assert!(!follows(&ready, Some(IdentityState::ExactLive)));
    ready.outcome.lifecycle = LifecycleState::Finished;
    ready.outcome.work_result = WorkResult::Ready;
    ready.outcome.review = ReviewState::Pending;
    let mut observed = ready.clone();
    observed.attachment.as_mut().unwrap().capabilities.integrate = false;
    assert_eq!(ready_for_auto_apply(&vec![run("native"), observed, ready]), [2]);
    let mut t = tick();
    assert!(!t.take_apply(PolicyApply::Failed("dirty".into())));
    assert_eq!(t.error.as_deref(), Some("dirty"));
    assert!(t.take_apply(PolicyApply::Applied) && t.applied);
    assert!(tells_error(&t.error, &None));
    assert!(!tells_error(&t.error, &Some("dirty".into())));
    assert!(needs_redraw(None, None, "h", 0));
    assert!(!needs_redraw(Some((Some(1), "h")), Some(1), "h", 0));
    assert!(needs_redraw(Some((Some(1), "h")), Some(2), "h", 0));
    assert!(needs_redraw(Some((Some(1), "h")), Some(1), "h", REDRAW_MILLIS));
}

#[test]
fn a_block_is_drawn_over_the_one_before() {
    let mut view = ProjectView::new();
    let rows = vec![("0123456789".to_string(), "Ready".to_string())];
    assert_eq!(view.render(Some("header"), &rows, true), Some(0));
    assert_eq!(view.last_block, ["header", "01234567 · Ready"]);
    assert_eq!(view.render(Some("header"), &rows, true), None);
    assert_eq!(view.render(Some("header"), &vec![], true), Some(2));
    assert_eq!(view.last_block, ["header", "no Work in the last hour"]);
}
