use dispatch::digest::text_hash;
use dispatch::orchestrator::native::{
    answer_question, apply_watch, ask, attempts_report, baseline_unusable, begin, cancel_question,
    check_verdict, conclude, decide_step, deliver, diagnostics, emit, ensure_open, expects_execution,
    finish_attempt, finish_error, hand_off, interrupted, interrupted_by, launch, next_turn, prepare,
    prepare_input, repair_abandoned, route, start_attempt, stop, take_attempt, take_return,
    AttemptPaths, Checkpoint, Execution,
    Headline, Opening, QuestionCommand, Step, Turn, MAX_OUTPUT,
};
use dispatch::orchestrator::phase3;
use dispatch::private_evidence::{delivery, domain_word};
use dispatch::process::{IdentityState, ProcessIdentity};
use dispatch::record::{
    ApplicationState, CandidateRecord, CandidateStatus, CheckResult, CheckStatus, CheckpointReport,
    Decision, FailureKind, GoalExecution, LifecycleState, QuestionState, Reason, ReviewState,
    RunMode, RunOutcome, RunPhase, RunRecord, RunStatus, Validity, VerificationState, WaitingOn,
    WorkResult,
};
use dispatch::router::{
    select_resource_filtered_lane, AllocationDecision, ResourceConfig, ResourceProfile,
    ResourceTier, TaskFeatures, TaskKind, TaskScope,
};

fn run() -> RunRecord {
    RunRecord {
        id: "01TEST".into(),
        task: "Fix cache".into(),
        exact_prompt: "Fix cache".into(),
        source_path: "/source".into(),
        source_fingerprint: "print".into(),
        baseline_path: "/baseline".into(),
        baseline_commit: "abc".into(),
        status: RunStatus::Running,
        mode: RunMode::Native,
        state_revision: 0,
        outcome: RunOutcome {
            lifecycle: LifecycleState::Working,
            work_result: WorkResult::Pending,
            verification: VerificationState::NotRun,
            review: ReviewState::NotRequested,
            application: ApplicationState::NotApplied,
            phase: RunPhase::Executing,
            waiting_on: WaitingOn::Nothing,
            applied_by: None,
        },
        created_at: 0,
        completed_at: None,
        execution_backend: "local".into(),
        unsafe_local: false,
        baseline_checks: vec![check("a", CheckStatus::Passed, Some(0))],
        candidates: vec![],
        attempts: vec![],
        allocation: None,
        coherence: None,
        applied_candidate: None,
        attachment: None,
        capacity: None,
        admission: None,
        phase3: Some(GoalExecution {
            owner_uid: 7,
            deadline_at: 100,
            max_invocations: 2,
            no_retry: false,
            fixed_harness: Some("codex".into()),
            fixed_model: None,
            fixed_effort: None,
            failure: None,
            final_attempt_id: None,
            contributing_attempts: vec![],
            provenance: "single".into(),
            supervisor: None,
            questions: vec![],
            planning: None,
        }),
    }
}

fn check(command: &str, status: CheckStatus, exit_code: Option<i32>) -> CheckResult {
    CheckResult {
        command: command.into(),
        status,
        exit_code,
        stdout_path: "/out".into(),
        stderr_path: "/err".into(),
    }
}

fn paths() -> AttemptPaths {
    AttemptPaths {
        workspace: "/w".into(),
        prompt: "/p".into(),
        stdout: "/out".into(),
        stderr: "/err".into(),
        diff: "/patch".into(),
        telemetry: "/raw".into(),
    }
}

fn decision(tier: ResourceTier) -> AllocationDecision {
    let features = TaskFeatures {
        language: None,
        task_kind: TaskKind::BugFix,
        scope: TaskScope::Localized,
    };
    select_resource_filtered_lane(&resources(), &features, "local", None, None, None, None, &vec![], Some(tier))
        .unwrap()
}

fn profile(tier: ResourceTier, model: &str) -> ResourceProfile {
    ResourceProfile {
        enabled: true,
        claude_subscription: None,
        provider: "openai".into(),
        funding_source: "chatgpt-plus".into(),
        harness: "codex".into(),
        model: model.into(),
        effort: Some("medium".into()),
        service_mode: "standard".into(),
        runtime: "local".into(),
        pool: "chatgpt-codex".into(),
        provider_buckets: vec!["codex".into()],
        tier,
        included: true,
        no_overage_verified: true,
        authorization_revision: 1,
        stale_evidence: None,
    }
}

fn resources() -> ResourceConfig {
    ResourceConfig {
        version: 1,
        allocation_enabled: true,
        profiles: vec![
            profile(ResourceTier::Light, "light-model"),
            profile(ResourceTier::Standard, "standard-model"),
            profile(ResourceTier::Strong, "strong-model"),
        ],
    }
}

fn supervisor() -> ProcessIdentity {
    ProcessIdentity { pid: 1, start: Some("1".into()), boot: Some("b".into()), process_group: None }
}

fn attempted(id: &str) -> (RunRecord, CandidateRecord) {
    let mut r = run();
    let c = prepare_input(&mut r, None, None, id, "/baseline", &paths(), 5).unwrap();
    launch(&mut r);
    (r, c)
}

fn question() -> CheckpointReport {
    CheckpointReport { question: "Which cache?".into(), choices: vec![], category: None }
}

fn execution(checkpoint: Checkpoint, mut candidate: CandidateRecord) -> Execution {
    candidate.status = CandidateStatus::Completed;
    Execution { candidate, cleanup_confirmed: true, failure: None, checkpoint }
}

#[test]
fn an_attempt_starts_fresh_and_is_the_next_one() {
    let (r, c) = attempted("one");
    assert_eq!(c.id, "one");
    assert_eq!(c.harness_id, "codex");
    assert_eq!(r.candidates, vec![c]);
    assert_eq!(r.attempts[0].ordinal, 1);
    assert_eq!(r.attempts[0].role, "executor");
    assert_eq!(r.attempts[0].outcome, "preparing");
    assert_eq!(r.status, RunStatus::Running);
    let mut bare = run();
    bare.phase3 = None;
    assert_eq!(
        prepare_input(&mut bare, None, None, "x", "/b", &paths(), 5),
        Err("native run without execution policy".to_string())
    );
    let mut anonymous = run();
    anonymous.phase3.as_mut().unwrap().fixed_harness = None;
    assert_eq!(
        prepare_input(&mut anonymous, None, None, "x", "/b", &paths(), 5),
        Err("native run without an agent".to_string())
    );
}

#[test]
fn work_opens_only_where_it_can_continue() {
    assert_eq!(begin(&run()), Opening::Go(None));
    let (r, _) = attempted("one");
    assert_eq!(begin(&r), Opening::Go(Some("clarification_answer".into())));
    let mut lost = r.clone();
    lost.allocation = Some(decision(ResourceTier::Light));
    assert_eq!(begin(&lost), Opening::Refused("continuation route missing".into()));
    assert!(route(&lost).is_err());
    let mut rejected = run();
    rejected.outcome.review = ReviewState::Rejected;
    assert_eq!(begin(&rejected), Opening::Refused("closed work cannot continue".into()));
    assert!(ensure_open(&rejected).is_err());
    let mut broken = run();
    broken.baseline_checks = vec![check("a", CheckStatus::Failed, Some(127))];
    assert!(baseline_unusable(&broken));
    assert_eq!(
        begin(&broken),
        Opening::Stop(
            FailureKind::BaselineInfrastructure,
            "baseline checks did not pass; no model escalation".into()
        )
    );
    broken.baseline_checks = vec![check("a", CheckStatus::Failed, Some(1))];
    assert!(!baseline_unusable(&broken));
}

#[test]
fn launches_stay_within_every_limit() {
    let step = |r: &RunRecord, print: &str, now| {
        decide_step(r, None, false, print, &vec![], &vec![], now)
    };
    assert_eq!(step(&run(), "print", 5), Step::Launch(None));
    assert_eq!(
        step(&run(), "other", 5),
        Step::Stop(FailureKind::SourceDrift, "source drift before fresh attempt".into())
    );
    assert_eq!(
        step(&run(), "print", 100),
        Step::Stop(FailureKind::Deadline, "goal cancelled or deadline expired".into())
    );
    let mut spent = run();
    spent.phase3.as_mut().unwrap().max_invocations = 9;
    for id in ["one", "two"] {
        prepare_input(&mut spent, None, None, id, "/b", &paths(), 5).unwrap();
    }
    assert_eq!(
        step(&spent, "print", 5),
        Step::Stop(FailureKind::InvocationLimit, "goal invocation limit reached".into())
    );
    let profiles = resources().profiles;
    let d = decision(ResourceTier::Standard);
    let chosen = |refusals: Vec<Option<String>>| {
        decide_step(&run(), Some(&d), false, "print", &profiles, &refusals, 5)
    };
    assert_eq!(chosen(vec![None, None, None]), Step::Launch(Some(1)));
    assert_eq!(
        chosen(vec![None, Some("no".into()), None]),
        Step::Stop(FailureKind::Authorization, "no".into())
    );
    assert!(matches!(
        decide_step(&run(), Some(&d), false, "print", &vec![], &vec![], 5),
        Step::Stop(FailureKind::Authorization, _)
    ));
    assert!(matches!(
        decide_step(&run(), None, true, "print", &vec![], &vec![], 5),
        Step::Stop(FailureKind::Cancelled, _)
    ));
}

#[test]
fn checks_decide_who_is_to_blame() {
    let good = vec![check("a", CheckStatus::Passed, Some(0))];
    let bad = vec![check("a", CheckStatus::Failed, Some(1))];
    assert_eq!(check_verdict(&good, &good), None);
    assert_eq!(check_verdict(&good, &bad), Some(FailureKind::TargetVerification));
    assert_eq!(check_verdict(&bad, &bad), Some(FailureKind::BaselineInfrastructure));
    assert_eq!(check_verdict(&vec![], &bad), Some(FailureKind::BaselineInfrastructure));
    let missing = vec![check("a", CheckStatus::Failed, Some(127))];
    assert_eq!(check_verdict(&good, &missing), Some(FailureKind::VerificationInfrastructure));
    let slow = vec![check("a", CheckStatus::TimedOut, None)];
    assert_eq!(check_verdict(&good, &slow), Some(FailureKind::VerificationInfrastructure));
    let unknown = vec![check("a", CheckStatus::Error, None)];
    assert_eq!(check_verdict(&good, &unknown), Some(FailureKind::VerificationUnknown));
}

#[test]
fn stopped_and_interrupted_work_is_over() {
    let (mut r, _) = attempted("one");
    assert!(expects_execution(&r));
    stop(&mut r, FailureKind::StaleWork, true, true, 9);
    assert_eq!(r.status, RunStatus::Interrupted);
    assert_eq!(r.outcome.work_result, WorkResult::Cancelled);
    assert_eq!(r.outcome.waiting_on, WaitingOn::Reconciliation);
    assert_eq!(r.attempts[0].outcome, "interrupted");
    assert!(!expects_execution(&r));
    assert_eq!(finish_error(&mut r, "late", false, 10), None);
    let (mut open, _) = attempted("one");
    assert_eq!(
        finish_error(&mut open, "pipe", false, 10).as_deref(),
        Some("foreground execution stopped: pipe")
    );
    assert_eq!(open.outcome.work_result, WorkResult::Interrupted);
    assert_eq!(open.phase3.unwrap().failure, Some(FailureKind::InternalState));
    let (mut kept, _) = attempted("one");
    assert!(!repair_abandoned(&mut kept, Some(IdentityState::Gone), false, 10));
    kept.attempts[0].completed_at = Some(8);
    assert!(!repair_abandoned(&mut kept, Some(IdentityState::ExactLive), false, 10));
    assert!(!repair_abandoned(&mut kept, Some(IdentityState::Gone), true, 10));
    assert!(repair_abandoned(&mut kept, Some(IdentityState::Gone), false, 10));
    assert_eq!(interrupted(&run(), 99), FailureKind::Cancelled);
    assert_eq!(interrupted(&run(), 100), FailureKind::Deadline);
    assert_eq!(interrupted_by(&run(), true, 99), FailureKind::StaleWork);
    assert_eq!(interrupted_by(&run(), true, 100), FailureKind::Deadline);
}

#[test]
fn only_a_watched_verdict_stops_running_work() {
    let v = |decision, reasons| Validity {
        decision,
        world_changed: true,
        world_digest: "w".into(),
        changed_files: 1,
        evaluated_at: 1,
        reasons,
    };
    let reason = vec![Reason { code: "c".into(), detail: "auth changed".into() }];
    assert_eq!(
        apply_watch(&v(Decision::Stop, reason), true, false, true).as_deref(),
        Some("auth changed")
    );
    assert_eq!(
        apply_watch(&v(Decision::Refresh, vec![]), true, true, true).as_deref(),
        Some("no detail")
    );
    assert_eq!(apply_watch(&v(Decision::Refresh, vec![]), true, false, true), None);
    assert_eq!(apply_watch(&v(Decision::Stop, vec![]), false, true, true), None);
    assert_eq!(apply_watch(&v(Decision::Stop, vec![]), true, true, false), None);
}

#[test]
fn a_question_leaves_room_for_its_answer() {
    let (mut r, c) = attempted("one");
    let turn = next_turn(&r, execution(Checkpoint::Question(question()), c.clone()), false, None, 6);
    assert_eq!(turn, Turn::Ask(question()));
    ask(&mut r, question(), "q", 6);
    assert_eq!(r.outcome.waiting_on, WaitingOn::Human);
    assert_eq!(
        emit(&r),
        Headline::Question(
            "Which cache?\nQuestion q (revision 1) — answer with dispatch answer 01TEST q \
             --revision 1 --answer <text>"
                .into()
        )
    );
    let command = QuestionCommand {
        run_id: "01TEST".into(),
        question_id: "q".into(),
        revision: 1,
        generation: 1,
    };
    let refused = |r: &RunRecord, c: &QuestionCommand, answer: &str, uid| {
        answer_question(&mut r.clone(), c, answer.into(), 7, uid, supervisor(), 8).unwrap_err()
    };
    assert_eq!(refused(&r, &command, "disk", 8), "local caller does not own the run");
    assert_eq!(refused(&r, &command, " \n", 7), "invalid answer");
    let stale = QuestionCommand { revision: 2, ..command.clone() };
    assert_eq!(
        refused(&r, &stale, "disk", 7),
        "stale, duplicate, or wrong-run question command"
    );
    let wrong = QuestionCommand { question_id: "z".into(), ..command.clone() };
    assert_eq!(refused(&r, &wrong, "disk", 7), "wrong question");
    let mut stranger = r.clone();
    stranger.phase3.as_mut().unwrap().owner_uid = 9;
    assert_eq!(refused(&stranger, &command, "disk", 7), "unauthorized local caller");
    let mut cancelled = r.clone();
    cancel_question(&mut cancelled, &command, 7, 7, supervisor(), 8).unwrap();
    assert_eq!(cancelled.outcome.work_result, WorkResult::Cancelled);
    answer_question(&mut r, &command, "disk".into(), 7, 7, supervisor(), 8).unwrap();
    assert_eq!(r.outcome.lifecycle, LifecycleState::Preparing);
    let q = &r.phase3.as_ref().unwrap().questions[0];
    assert_eq!((q.state, q.revision), (QuestionState::Answered, 2));
    assert_eq!(
        refused(&r, &QuestionCommand { revision: 2, ..command.clone() }, "again", 7),
        "run is not awaiting an answer"
    );
    let outputs = vec![];
    let text = prepare(&r, &outputs);
    assert!(text.starts_with("Fix cache\n\n"));
    assert!(text.contains("\nClarification: Which cache?\nAuthorized answer: disk\n"));
    prepare_input(&mut r, None, None, "two", "/b", &paths(), 9).unwrap();
    assert_eq!(
        next_turn(&r, execution(Checkpoint::Question(question()), c), false, None, 9),
        Turn::Stop(FailureKind::InvocationLimit, "attempt did not safely complete".into())
    );
}

#[test]
fn what_returned_decides_the_turn() {
    let (r, c) = attempted("one");
    let turn = |e: Execution, stale| next_turn(&r, e, false, stale, 6);
    let done = execution(Checkpoint::Nothing, c.clone());
    assert_eq!(turn(done.clone(), None), Turn::Deliver);
    assert_eq!(
        turn(execution(Checkpoint::Unsupported, c.clone()), None),
        Turn::Stop(FailureKind::UnsupportedCheckpoint, "attempt did not safely complete".into())
    );
    let dirty = Execution { cleanup_confirmed: false, ..done.clone() };
    assert!(matches!(turn(dirty, None), Turn::Stop(FailureKind::InternalState, _)));
    let mut failed = done.clone();
    failed.candidate.status = CandidateStatus::Failed;
    failed.candidate.error = Some("exit 1".into());
    assert_eq!(turn(failed, None), Turn::Stop(FailureKind::HarnessProcess, "exit 1".into()));
    assert_eq!(
        next_turn(&r, done, true, Some("auth changed"), 6),
        Turn::Stop(
            FailureKind::StaleWork,
            "work stopped: the source changed underneath it (auth changed)".into()
        )
    );
}

#[test]
fn a_delivery_names_every_contributing_attempt() {
    let (mut r, c) = attempted("one");
    finish_attempt(&mut r, &c, Some(FailureKind::TargetVerification));
    let c = prepare_input(&mut r, None, None, "two", "/b", &paths(), 6).unwrap();
    assert_eq!(r.attempts[1].detail.parent_attempt_id.as_deref(), Some("one"));
    let refreshed = RunOutcome {
        work_result: WorkResult::Ready,
        verification: VerificationState::Failed,
        review: ReviewState::Pending,
        lifecycle: LifecycleState::Finished,
        ..r.outcome
    };
    take_return(&mut r, &c, refreshed);
    assert_eq!(r.outcome.work_result, WorkResult::Pending);
    deliver(&mut r, Some(FailureKind::TargetVerification), refreshed, 7);
    assert_eq!(r.status, RunStatus::ReadyForEvaluation);
    assert_eq!(r.candidates[0].harness_id, "mixed");
    let p = r.phase3.as_ref().unwrap();
    assert_eq!(p.contributing_attempts, ["one", "two"]);
    assert_eq!(p.provenance, "mixed_attempt_context");
    assert_eq!(emit(&r), Headline::Result("Verification failed".into()));
    assert_eq!(
        phase3::emit(&r),
        Headline::Result("Work stopped; inspect verification and attempt details".into())
    );
    assert_eq!(
        attempts_report(&r).last().unwrap(),
        "2 attempt(s); final attempt: two"
    );
    r.candidates.clear();
    assert_eq!(emit(&r), Headline::Stopped("Work stopped: Some(TargetVerification)".into()));
}

#[test]
fn diagnostics_quote_only_failed_checks_and_are_bounded() {
    let (mut r, mut c) = attempted("one");
    c.checks = vec![
        check("good", CheckStatus::Passed, Some(0)),
        check("bad", CheckStatus::Failed, Some(1)),
    ];
    finish_attempt(&mut r, &c, None);
    let outputs = vec![(vec![], vec![]), (vec![b'x'; MAX_OUTPUT + 5], b"err\xff".to_vec())];
    let text = diagnostics(&r.attempts[0], &outputs);
    assert_eq!(
        text,
        format!(
            "Previous attempt one restarted from the same original baseline. Its workspace is \
             retained and is not your input.\nFailed check: bad\n{}err\u{fffd}",
            "x".repeat(MAX_OUTPUT)
        )
    );
}

#[test]
fn recovery_follows_only_a_failed_target_and_is_stronger() {
    let (mut r, c) = attempted("one");
    let bad = |checks| {
        let mut candidate = c.clone();
        candidate.status = CandidateStatus::Completed;
        candidate.checks = checks;
        phase3::Execution {
            candidate,
            admission_released: true,
            failure: None,
            checkpoint: Checkpoint::Nothing,
        }
    };
    let target = bad(vec![check("a", CheckStatus::Failed, Some(1))]);
    assert_eq!(phase3::next_turn(&r, target.clone(), false, 6), Turn::Recover);
    assert_eq!(
        phase3::attempt_failure(&r, &target, false, 6),
        Some(FailureKind::TargetVerification)
    );
    assert_eq!(phase3::next_turn(&r, bad(vec![]), false, 6), Turn::Deliver);
    let held = phase3::Execution { admission_released: false, ..target };
    assert!(matches!(
        phase3::next_turn(&r, held, false, 6),
        Turn::Stop(FailureKind::InternalState, _)
    ));
    r.attempts[0].detail.decision = Some(decision(ResourceTier::Light));
    let policy = r.phase3.clone().unwrap();
    assert_eq!(
        phase3::recovery_profiles(&resources().profiles, &policy, ResourceTier::Light),
        [1, 2]
    );
    let weaker = decision(ResourceTier::Light);
    let strong = decision(ResourceTier::Strong);
    let d =
        phase3::recovery_route(&r, &resources(), vec![None, Some(weaker), Some(strong)]).unwrap();
    assert_eq!(d.policy_version, "bounded-recovery-v1");
    assert_eq!(d.selected.tier, ResourceTier::Strong);
    let blocked = phase3::recovery_route(&r, &resources(), vec![]).unwrap();
    assert_eq!(blocked.selected.resolved_model, "standard-model");
    r.phase3.as_mut().unwrap().no_retry = true;
    assert_eq!(
        phase3::recovery_route(&r, &resources(), vec![Some(decision(ResourceTier::Strong))]),
        None
    );
}

#[test]
fn admission_decides_how_unlaunched_work_stops() {
    let (mut r, _) = attempted("one");
    assert_eq!(phase3::admission_failure(&r, true, true, 6), FailureKind::Cancelled);
    assert_eq!(phase3::admission_failure(&r, false, true, 6), FailureKind::CapacityAdmission);
    assert_eq!(phase3::admission_failure(&r, false, false, 6), FailureKind::InternalState);
    r.capacity = Some("full".into());
    phase3::stop(&mut r, FailureKind::CapacityAdmission, 6);
    assert_eq!(r.status, RunStatus::Deferred);
    assert_eq!(r.attempts[0].outcome, "not_launched");
    assert_eq!(r.attempts[0].detail.capacity.as_deref(), Some("full"));
    assert!(!phase3::recover_checkpoint(&mut r, supervisor()));
    assert_eq!(r.outcome.lifecycle, LifecycleState::Preparing);
    ask(&mut r, question(), "q", 7);
    assert!(phase3::recover_checkpoint(&mut r, supervisor()));
    assert_eq!(r.outcome.waiting_on, WaitingOn::Human);
}

fn ready(r: &RunRecord) -> RunOutcome {
    RunOutcome {
        work_result: WorkResult::Ready,
        review: ReviewState::Pending,
        lifecycle: LifecycleState::Finished,
        ..r.outcome
    }
}

#[test]
fn completed_work_is_delivered_whatever_its_checks_say() {
    let mut r = run();
    let c = start_attempt(&mut r, None, None, "one", "/baseline", &paths(), 5).unwrap();
    assert_eq!(r.status, RunStatus::Running);
    assert_eq!(hand_off(&mut r, false, false, false, 5), Ok(()));
    let mut e = execution(Checkpoint::Nothing, c);
    e.candidate.checks = vec![check("a", CheckStatus::Failed, Some(1))];
    let outcome = ready(&r);
    let returned = take_attempt(&mut r, e, false, None, outcome, 6);
    assert_eq!(returned.failure, Some(FailureKind::TargetVerification));
    assert_eq!(returned.turn, Turn::Deliver);
    assert_eq!(r.outcome.work_result, WorkResult::Pending);
    assert_eq!(r.attempts[0].detail.failure, Some(FailureKind::TargetVerification));
    conclude(&mut r, returned, outcome, false, true, "q", 7);
    assert_eq!(r.status, RunStatus::ReadyForEvaluation);
    assert_eq!(r.phase3.unwrap().failure, Some(FailureKind::TargetVerification));
}

#[test]
fn a_returned_question_waits_and_a_returned_failure_stops() {
    let mut r = run();
    let c = start_attempt(&mut r, None, None, "one", "/baseline", &paths(), 5).unwrap();
    let outcome = ready(&r);
    let mut asking = r.clone();
    let e = execution(Checkpoint::Question(question()), c.clone());
    let returned = take_attempt(&mut asking, e, false, None, outcome, 6);
    conclude(&mut asking, returned, outcome, false, true, "q", 7);
    assert_eq!(asking.outcome.waiting_on, WaitingOn::Human);
    assert_eq!(asking.phase3.unwrap().questions[0].id, "q");
    let mut stale = r.clone();
    let e = execution(Checkpoint::Nothing, c);
    let returned = take_attempt(&mut stale, e, true, Some("auth changed"), outcome, 6);
    conclude(&mut stale, returned, outcome, true, true, "q", 7);
    assert_eq!(stale.status, RunStatus::Interrupted);
    assert_eq!(stale.outcome.waiting_on, WaitingOn::Reconciliation);
    assert_eq!(
        hand_off(&mut r, true, false, false, 6),
        Err("cancelled before handoff".to_string())
    );
    assert_eq!(r.attempts[0].outcome, "not_launched");
}

#[test]
fn an_admitted_goal_recovers_or_is_delivered() {
    let mut r = run();
    let c = start_attempt(&mut r, None, None, "one", "/baseline", &paths(), 5).unwrap();
    let mut refused = r.clone();
    assert_eq!(
        phase3::stop_unadmitted(&mut refused, false, None, 6),
        Ok("capacity deferred".to_string())
    );
    assert_eq!(refused.status, RunStatus::Deferred);
    assert_eq!(
        phase3::stop_unadmitted(&mut r.clone(), false, Some("db".into()), 6),
        Err("db".to_string())
    );
    assert!(phase3::hand_off(&mut r.clone(), true, 6).is_err());
    assert_eq!(phase3::hand_off(&mut r, false, 6), Ok(()));
    let mut candidate = c;
    candidate.status = CandidateStatus::Completed;
    candidate.checks = vec![check("a", CheckStatus::Failed, Some(1))];
    let e = phase3::Execution {
        candidate,
        admission_released: true,
        failure: None,
        checkpoint: Checkpoint::Nothing,
    };
    let outcome = ready(&r);
    let returned = phase3::take_attempt(&mut r, e, false, outcome, 6);
    assert_eq!(returned.turn, Turn::Recover);
    let mut recovering = r.clone();
    phase3::conclude(&mut recovering, returned.clone(), outcome, true, "q", 7);
    assert_eq!(recovering.outcome.lifecycle, LifecycleState::Preparing);
    assert_eq!(recovering.completed_at, None);
    phase3::conclude(&mut r, returned, outcome, false, "q", 7);
    assert_eq!(r.completed_at, Some(7));
    assert_eq!(r.status, RunStatus::ReadyForEvaluation);
}

#[test]
fn a_delivery_is_known_by_its_digest() {
    let mut r = run();
    assert_eq!(
        delivery(&r, "[]"),
        text_hash("{\"baseline\":\"abc\",\"candidates\":[],\"contributors\":[],\"final\":null}")
    );
    let goal = r.phase3.as_mut().unwrap();
    goal.contributing_attempts = vec!["one".into(), "two\n".into()];
    goal.final_attempt_id = Some("two\n".into());
    assert_eq!(
        delivery(&r, "[]"),
        text_hash(
            "{\"baseline\":\"abc\",\"candidates\":[],\"contributors\":[\"one\",\"two\\n\"],\"final\":\"two\\n\"}"
        )
    );
    r.phase3 = None;
    assert_eq!(
        delivery(&r, "[1]"),
        text_hash(
            "{\"baseline\":\"abc\",\"candidates\":[1],\"contributors\":null,\"final\":null}"
        )
    );
    assert_eq!(domain_word(true), "synthetic_fixture");
    assert_eq!(domain_word(false), "ordinary_private");
}
