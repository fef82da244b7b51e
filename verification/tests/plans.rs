use dispatch::digest::{digest, file_hash};
use dispatch::orchestrator::launch::{
    invocation_settings, recovery_settings, AgentSettings, LaunchSettings,
};
use dispatch::orchestrator::native::{AttemptPaths, Checkpoint};
use dispatch::orchestrator::phase3::Execution;
use dispatch::orchestrator::planned::drive::{
    abandon, begin, check_artifacts, lanes, next_move, plan_tasks, report_of, reports, take_checks, take_child,
    take_planner, take_repair, take_repair_checks, take_repaired_checks, take_root_checks, Checked,
    Child, Move, Opening, Report, Root,
};
use dispatch::orchestrator::planned::{
    accept_plan, accept_planner, admit_planner, admit_task, begin_task, bind_route, boundary,
    child_failure, complete_task, consumed_artifacts, deliver, dependency, drive_failure,
    execution_failure, fail, finish_attempt, has_extra, identify, integrate, integration_task,
    new_task, next_task, pause_task, planner_prompt, prepare_invocation, previous_attempt,
    previous_contribution, record_root_failure, repair_prompt, repairable, retry_task, role_of,
    root_failure, task_features, task_input, task_prompt, task_tier, validate_writes, Contribution,
    Delivery,
};
use dispatch::planning::{
    catalog, check_length, checks_passed, contains, depends, fence, immutable, lane, order, parse, path, persist,
    planning, stop_active, validate, validate_policy, verify_artifact, verify_delivery,
    verify_snapshot, Artifact, ArtifactFacts, DependencyReport, Invocation, PathKind, Plan,
    Planning, PlanningConfig, PlanningRules, RoutineScope, Snapshot, TaskSpec, TaskState,
};
use dispatch::record::{
    ApplicationState, CandidateRecord, CandidateStatus, CheckResult, CheckStatus, CheckpointReport,
    DiffStats, FailureKind,
    GoalExecution, LifecycleState, ReviewState, RunMode, RunOutcome, RunPhase, RunRecord, RunStatus,
    VerificationState, WaitingOn, WorkResult,
};
use dispatch::router::{
    select_resource_filtered_lane, AllocationDecision, ResourceConfig, ResourceProfile,
    ResourceTier, TaskFeatures, TaskKind, TaskScope,
};
use dispatch::setup::Agent;
use dispatch::text_map::TextMap;

fn run() -> RunRecord {
    RunRecord {
        id: "01TEST".into(),
        task: "Fix cache".into(),
        exact_prompt: "Fix cache".into(),
        source_path: "/source".into(),
        source_fingerprint: "print".into(),
        baseline_path: "/baseline".into(),
        baseline_commit: "abc".into(),
        status: RunStatus::Running,
        mode: RunMode::Native,
        state_revision: 0,
        outcome: RunOutcome {
            lifecycle: LifecycleState::Working,
            work_result: WorkResult::Pending,
            verification: VerificationState::NotRun,
            review: ReviewState::NotRequested,
            application: ApplicationState::NotApplied,
            phase: RunPhase::Executing,
            waiting_on: WaitingOn::Nothing,
            applied_by: None,
        },
        created_at: 0,
        completed_at: None,
        execution_backend: "local".into(),
        unsafe_local: false,
        baseline_checks: vec![check("a", CheckStatus::Passed, Some(0))],
        candidates: vec![],
        attempts: vec![],
        allocation: None,
        coherence: None,
        applied_candidate: None,
        attachment: None,
        capacity: None,
        admission: None,
        phase3: Some(GoalExecution {
            owner_uid: 7,
            deadline_at: 100,
            max_invocations: 2,
            no_retry: false,
            fixed_harness: Some("codex".into()),
            fixed_model: None,
            fixed_effort: None,
            failure: None,
            final_attempt_id: None,
            contributing_attempts: vec![],
            provenance: "single".into(),
            supervisor: None,
            questions: vec![],
            planning: None,
        }),
    }
}

fn check(command: &str, status: CheckStatus, exit_code: Option<i32>) -> CheckResult {
    CheckResult {
        command: command.into(),
        status,
        exit_code,
        stdout_path: "/out".into(),
        stderr_path: "/err".into(),
    }
}

fn paths() -> AttemptPaths {
    AttemptPaths {
        workspace: "/w".into(),
        prompt: "/p".into(),
        stdout: "/out".into(),
        stderr: "/err".into(),
        diff: "/patch".into(),
        telemetry: "/raw".into(),
    }
}

fn decision(tier: ResourceTier) -> AllocationDecision {
    let features = TaskFeatures {
        language: None,
        task_kind: TaskKind::BugFix,
        scope: TaskScope::Localized,
    };
    select_resource_filtered_lane(&resources(), &features, "local", None, None, None, None, &vec![], Some(tier))
        .unwrap()
}

fn profile(tier: ResourceTier, model: &str) -> ResourceProfile {
    ResourceProfile {
        enabled: true,
        claude_subscription: None,
        provider: "openai".into(),
        funding_source: "chatgpt-plus".into(),
        harness: "codex".into(),
        model: model.into(),
        effort: Some("medium".into()),
        service_mode: "standard".into(),
        runtime: "local".into(),
        pool: "chatgpt-codex".into(),
        provider_buckets: vec!["codex".into()],
        tier,
        included: true,
        no_overage_verified: true,
        authorization_revision: 1,
        stale_evidence: None,
    }
}

fn resources() -> ResourceConfig {
    ResourceConfig {
        version: 1,
        allocation_enabled: true,
        profiles: vec![
            profile(ResourceTier::Light, "light-model"),
            profile(ResourceTier::Standard, "standard-model"),
            profile(ResourceTier::Strong, "strong-model"),
        ],
    }
}

fn words(list: &[&str]) -> Vec<String> {
    list.iter().map(|w| w.to_string()).collect()
}

fn approved() -> TextMap<String> {
    catalog(&words(&["run tests"]))
}

fn check_name() -> String {
    format!("check-{}", &digest("run tests")[..16])
}

fn spec(id: &str, read: &[&str], write: &[&str], prerequisites: &[&str]) -> TaskSpec {
    TaskSpec {
        id: id.into(),
        objective: "Do it".into(),
        read: words(read),
        write: words(write),
        acceptance: words(&["done"]),
        checks: vec![check_name()],
        prerequisites: words(prerequisites),
        inputs: words(&["source"]),
        outputs: words(&["change"]),
    }
}

fn plan() -> Plan {
    Plan {
        version: 1,
        tasks: vec![spec("b", &["a.rs"], &["b.rs"], &["a"]), spec("a", &["x.rs"], &["a.rs"], &[])],
    }
}

fn snapshot(id: &str) -> Snapshot {
    Snapshot {
        id: id.into(),
        path: format!("/{id}"),
        fingerprint: format!("print-{id}"),
        parent: None,
        contribution: None,
    }
}

fn policy() -> PlanningConfig {
    PlanningConfig { verification_paths: words(&["tests"]), routine: vec![] }
}

fn planned() -> RunRecord {
    let mut r = run();
    let goal = r.phase3.as_mut().unwrap();
    goal.max_invocations = 5;
    goal.planning = Some(Planning {
        version: 1,
        revision: "rev".into(),
        approved_checks: approved(),
        owner_policy: policy(),
        plan: None,
        tasks: vec![],
        snapshots: vec![snapshot("s0")],
        artifacts: vec![],
        final_candidate: None,
        final_patch_sha256: None,
        root_checks: vec![],
        error: None,
    });
    let tasks = vec![
        new_task("b", decision(ResourceTier::Standard), "p".into()),
        new_task("a", decision(ResourceTier::Standard), "p".into()),
    ];
    accept_plan(&mut r, plan(), tasks);
    r
}

fn of(r: &RunRecord) -> &Planning {
    planning(r).unwrap()
}

fn invoke(r: &mut RunRecord, id: &str, role: &str, task: Option<&str>) {
    let d = decision(ResourceTier::Standard);
    prepare_invocation(r, d, id, &snapshot("s0"), role, task, vec![], &paths(), 5).unwrap();
}

#[test]
fn checks_are_named_by_their_command() {
    assert_eq!(approved().get(&check_name()), Some(&"run tests".to_string()));
    assert_eq!(approved().get("run tests"), None);
}

#[test]
fn plans_are_accepted_only_within_their_bounds() {
    let p = of(&planned()).clone();
    let tree: TextMap<PathKind> = TextMap::new();
    assert_eq!(validate(&plan(), &tree, &p, 4), Ok(()));
    let refused = |plan: &Plan, remaining| validate(plan, &tree, &p, remaining).unwrap_err();
    assert_eq!(
        refused(&Plan { version: 2, ..plan() }, 4),
        "plan must contain one to four tasks using version 1"
    );
    assert_eq!(refused(&plan(), 1), "plan exceeds remaining initial-invocation budget");
    let with = |edit: &dyn Fn(&mut Plan)| {
        let mut changed = plan();
        edit(&mut changed);
        refused(&changed, 4)
    };
    assert_eq!(with(&|p| p.tasks[1].id = "b".into()), "invalid or duplicate task ID");
    assert_eq!(
        with(&|p| p.tasks[0].objective = " ".into()),
        "task b has missing or oversized contract fields"
    );
    assert_eq!(
        with(&|p| p.tasks[0].write = words(&["../x"])),
        "unsafe repository-relative path: ../x"
    );
    assert_eq!(
        with(&|p| p.tasks[0].checks = words(&["sh"])),
        "task b requires unknown or duplicate checks"
    );
    assert_eq!(with(&|p| p.tasks[0].prerequisites = words(&["z"])), "invalid dependency for b");
    assert_eq!(with(&|p| p.tasks[1].prerequisites = words(&["b"])), "cyclic task dependencies");
    assert_eq!(
        with(&|p| {
            p.tasks[0].write = words(&["a.rs"]);
            p.tasks[0].prerequisites = vec![];
        }),
        "shared write scopes require an explicit dependency: b / a"
    );
    assert_eq!(order(&plan()), Ok(words(&["a", "b"])));
    assert!(depends(&plan(), "b", "a"));
    assert!(!depends(&plan(), "a", "b"));
}

#[test]
fn paths_stay_inside_the_repository() {
    let mut tree = TextMap::new();
    tree.insert("link".into(), PathKind::Symlink);
    assert_eq!(path(&tree, "src//./lib.rs"), Ok("src/lib.rs".to_string()));
    assert!(path(&tree, "./src/lib.rs").is_err());
    assert_eq!(path(&tree, ""), Err("empty or oversized path".to_string()));
    assert_eq!(path(&tree, "/etc"), Err("unsafe repository-relative path: /etc".to_string()));
    assert_eq!(path(&tree, ".git/config"), Err("reserved path: .git/config".to_string()));
    assert_eq!(path(&tree, "link/x"), Err("scope contains a symlink: link/x".to_string()));
    assert!(contains("src", "src/lib.rs"));
    assert!(!contains("src", "srcs/lib.rs"));
}

#[test]
fn owners_decide_what_planning_needs() {
    let mut tree = TextMap::new();
    tree.insert("tests".into(), PathKind::Directory);
    let rules = PlanningRules { verify: words(&["run tests"]), planning: policy() };
    assert_eq!(validate_policy(&tree, &rules), Ok(()));
    let none = PlanningRules { verify: vec![], ..rules.clone() };
    assert_eq!(
        validate_policy(&tree, &none),
        Err("planned execution requires owner-approved executable checks".to_string())
    );
    let t = spec("t", &["x.rs"], &["x.rs"], &[]);
    let file = vec![Some(PathKind::File)];
    assert_eq!(lane(&t, &file, &policy()).0, ResourceTier::Standard);
    assert_eq!(lane(&t, &vec![Some(PathKind::Directory)], &policy()).0, ResourceTier::Strong);
    let routine = PlanningConfig {
        routine: vec![RoutineScope { paths: words(&["x.rs"]), checks: vec![check_name()] }],
        ..policy()
    };
    assert_eq!(lane(&t, &file, &routine).0, ResourceTier::Light);
    assert_eq!(
        lane(&spec("t", &["x"], &["api.h"], &[]), &file, &policy()).0,
        ResourceTier::Strong
    );
    assert!(PlanningConfig { verification_paths: vec![], routine: vec![] }.is_empty());
}

#[test]
fn stored_plans_never_change() {
    assert_eq!(immutable(None, "x"), Ok(()));
    assert_eq!(immutable(Some("x"), "y"), Err("immutable lineage changed".to_string()));
    assert_eq!(persist(Some("p"), "p", None, Some("plan")), Ok(()));
    assert_eq!(
        persist(Some("p"), "q", None, None),
        Err("planned goal policy is immutable".to_string())
    );
    assert_eq!(
        persist(None, "p", Some("a"), Some("b")),
        Err("validated plan is immutable; dependency proposals are separate edges".to_string())
    );
}

#[test]
fn the_next_task_has_its_prerequisites() {
    let mut r = planned();
    let next = |r: &RunRecord| next_task(&of(r).tasks, &plan().tasks);
    assert_eq!(next(&r), Ok(Some(1)));
    complete_task(&mut r, 1, "artifact");
    assert_eq!(next(&r), Ok(Some(0)));
    complete_task(&mut r, 0, "artifact");
    assert_eq!(next(&r), Ok(None));
    let mut stuck = planned();
    begin_task(&mut stuck, 1, decision(ResourceTier::Light), "s0");
    assert!(next(&stuck).is_err());
    stop_active(&mut stuck, "cancelled");
    assert_eq!(of(&stuck).tasks[1].state, TaskState::Failed);
}

#[test]
fn every_reservation_is_fenced() {
    let mut r = planned();
    invoke(&mut r, "one", "task", Some("a"));
    let at = |r: &RunRecord, now, used: &[(&str, &str)]| {
        let list = used
            .iter()
            .map(|(slot, k)| Invocation { slot: slot.to_string(), knowledge: k.to_string() })
            .collect();
        fence(r, "one", true, now, &list)
    };
    assert_eq!(at(&r, 5, &[]), Err("task is not runnable".to_string()));
    begin_task(&mut r, 1, decision(ResourceTier::Light), "s0");
    assert_eq!(at(&r, 5, &[]), Ok(Some("task:a".to_string())));
    assert_eq!(
        at(&r, 5, &[("task:a", "returned")]),
        Err("planned slot already reserved; no automatic replay".to_string())
    );
    assert_eq!(
        at(&r, 100, &[]),
        Err("planned goal closed or original deadline expired".to_string())
    );
    assert_eq!(
        fence(&r, "one", false, 5, &vec![]),
        Err("persisted planning policy mismatch".to_string())
    );
    assert_eq!(
        fence(&r, "two", true, 5, &vec![]),
        Err("attempt missing from committed plan".to_string())
    );
    assert_eq!(fence(&run(), "one", true, 5, &vec![]), Ok(None));
    let spent = [("x", "r"), ("x", "r"), ("x", "r"), ("x", "r"), ("x", "r"), ("x", "r")];
    assert_eq!(at(&r, 5, &spent), Err("planned invocation budget exhausted".to_string()));
}

#[test]
fn the_shared_extra_is_spent_once() {
    let mut r = planned();
    assert!(has_extra(&r, 5));
    assert!(!has_extra(&r, 100));
    invoke(&mut r, "one", "task", Some("a"));
    assert!(repairable(&r, FailureKind::TargetVerification, 5));
    assert!(!repairable(&r, FailureKind::HarnessProcess, 5));
    retry_task(&mut r, 1);
    assert_eq!(role_of(&of(&r).tasks[1]), "repair");
    assert_eq!(task_tier(&of(&r).tasks[1], ResourceTier::Light), ResourceTier::Strong);
    assert_eq!(task_input(of(&r), &of(&r).tasks[1]), Err("repair input missing".to_string()));
    assert_eq!(admit_task(&r, &of(&r).tasks[1], 5), Ok(()));
    invoke(&mut r, "two", "repair", Some("a"));
    assert!(!has_extra(&r, 5));
    assert_eq!(
        admit_task(&r, &of(&r).tasks[1], 5),
        Err("shared extra invocation already spent or unavailable".to_string())
    );
    assert_eq!(previous_attempt(&r, "a"), Some(1));
    assert_eq!(previous_attempt(&r, "b"), None);
    assert_eq!(
        pause_task(&mut r, 1, 5),
        Err("checkpoint cannot continue: goal's shared extra is unavailable".to_string())
    );
    let mut waiting = planned();
    pause_task(&mut waiting, 1, 5).unwrap();
    assert_eq!(role_of(&of(&waiting).tasks[1]), "continuation");
    assert_eq!(
        admit_task(&waiting, &of(&waiting).tasks[1], 5),
        Err("task requires an authorized answer".to_string())
    );
}

fn report(attempt: &str, prerequisite: Option<&str>, assistance: Option<&str>) -> DependencyReport {
    DependencyReport {
        version: 1,
        plan_revision: "rev".into(),
        task_id: "b".into(),
        attempt_id: attempt.into(),
        generation: 1,
        prerequisite: prerequisite.map(str::to_owned),
        assistance: assistance.map(str::to_owned),
    }
}

#[test]
fn reported_dependencies_close_no_cycle_and_add_no_task() {
    let mut r = planned();
    invoke(&mut r, "one", "task", Some("b"));
    let refused = |r: &RunRecord, index, d| dependency(&mut r.clone(), index, d).unwrap_err();
    assert_eq!(
        refused(&r, 0, report("old", Some("a"), None)),
        "stale or cross-goal dependency report"
    );
    assert_eq!(
        refused(&r, 0, report("one", Some("a"), Some("help"))),
        "one dependency or assistance request required"
    );
    assert_eq!(refused(&r, 0, report("one", Some("b"), None)), "self dependency refused");
    assert_eq!(
        refused(&r, 0, report("one", Some("z"), None)),
        "unknown prerequisite; new tasks are forbidden"
    );
    assert_eq!(refused(&r, 0, report("one", None, Some(" "))), "invalid assistance request");
    let back = DependencyReport { task_id: "a".into(), ..report("one", Some("b"), None) };
    assert_eq!(refused(&r, 1, back), "dependency would create a cycle");
    let mut failed = r.clone();
    begin_task(&mut failed, 1, decision(ResourceTier::Light), "s0");
    assert_eq!(
        refused(&failed, 0, report("one", Some("a"), None)),
        "prerequisite is failed, cancelled, or itself awaiting continuation"
    );
    let mut helped = r.clone();
    dependency(&mut helped, 0, report("one", None, Some("hint"))).unwrap();
    assert_eq!(of(&helped).tasks[0].extra_reason.as_deref(), Some("reasoning_assistance"));
    dependency(&mut r, 0, report("one", Some("a"), None)).unwrap();
    assert_eq!(of(&r).tasks[0].pending_prerequisite.as_deref(), Some("a"));
    assert_eq!(of(&r).tasks.len(), 2);
    r.phase3.as_mut().unwrap().no_retry = true;
    assert_eq!(
        refused(&r, 0, report("one", None, Some("hint"))),
        "automatic reasoning assistance is disabled by --no-retry"
    );
}

#[test]
fn writes_stay_in_the_scope_of_the_task() {
    let tree: TextMap<PathKind> = TextMap::new();
    let mut linked = TextMap::new();
    linked.insert("src".into(), PathKind::Symlink);
    let t = spec("t", &["x"], &["src"], &[]);
    let check = |changed: &[&str], workspace: &TextMap<PathKind>| {
        validate_writes(&t, &words(changed), &tree, workspace)
    };
    assert_eq!(check(&["src/a.rs"], &tree), Ok(()));
    assert_eq!(check(&["src/a.rs", "b.rs"], &tree), Err("out-of-scope write: b.rs".to_string()));
    assert_eq!(
        check(&["src/a.rs"], &linked),
        Err("scope contains a symlink: src/a.rs".to_string())
    );
}

fn contribution(published: &str) -> Contribution {
    Contribution {
        artifact_id: "art".into(),
        snapshot_id: "s1".into(),
        task_id: Some("a".into()),
        patch: "/patch".into(),
        patch_bytes: b"patch".to_vec(),
        manifest: "/manifest".into(),
        checks: vec![check("a", CheckStatus::Passed, Some(0))],
        changed: words(&["a.rs", "tests/a.rs"]),
        published: published.into(),
        integrated_path: "/s1".into(),
        integrated: "print-s1".into(),
    }
}

fn facts() -> ArtifactFacts {
    ArtifactFacts {
        patch: b"patch".to_vec(),
        manifest_matches: true,
        fingerprint: "print-s1".into(),
    }
}

#[test]
fn contributions_extend_the_lineage_exactly() {
    let mut r = planned();
    invoke(&mut r, "one", "task", Some("a"));
    let s0 = snapshot("s0");
    assert_eq!(
        integrate(&mut r.clone(), &snapshot("old"), "print-old", contribution("print-s1")),
        Err("integration input revision changed; stale contribution refused".to_string())
    );
    assert_eq!(
        integrate(&mut r.clone(), &s0, "other", contribution("print-s1")),
        Err("immutable snapshot hash mismatch: s0".to_string())
    );
    assert_eq!(
        integrate(&mut r.clone(), &s0, "print-s0", contribution("other")),
        Err(
            "contribution cannot faithfully represent output tree; integration refused".to_string()
        )
    );
    integrate(&mut r, &s0, "print-s0", contribution("print-s1")).unwrap();
    assert_eq!(r.outcome.phase, RunPhase::Integrating);
    complete_task(&mut r, 1, "art");
    let a: &Artifact = &of(&r).artifacts[0];
    assert_eq!(a.patch_sha256, file_hash(b"patch"));
    assert_eq!(a.verification_changes, ["tests/a.rs"]);
    assert_eq!(of(&r).snapshots[1].parent.as_deref(), Some("s0"));
    assert_eq!(verify_artifact(&r, a, &facts()), Ok(()));
    let bad = |f: ArtifactFacts| verify_artifact(&r, a, &f).unwrap_err();
    assert_eq!(
        bad(ArtifactFacts { patch: b"other".to_vec(), ..facts() }),
        "artifact patch hash mismatch"
    );
    assert_eq!(
        bad(ArtifactFacts { manifest_matches: false, ..facts() }),
        "artifact manifest mismatch"
    );
    assert_eq!(
        bad(ArtifactFacts { fingerprint: "x".into(), ..facts() }),
        "immutable snapshot hash mismatch: s1"
    );
    let unchecked = Artifact { checks: vec![], ..a.clone() };
    assert_eq!(
        verify_artifact(&r, &unchecked, &facts()),
        Err("prerequisite lacks passing checks".to_string())
    );
    assert!(verify_snapshot(&s0, "print-s0").is_ok());
    let b = &plan().tasks[0];
    assert_eq!(
        consumed_artifacts(&r, b, &of(&r).tasks[0], &vec![facts()]),
        Ok(words(&["art"]))
    );
    assert_eq!(
        consumed_artifacts(&planned(), b, &of(&r).tasks[0], &vec![]),
        Err("prerequisite has no immutable artifact".to_string())
    );
    assert_eq!(task_input(of(&r), &of(&r).tasks[0]), Ok(1));
    assert_eq!(
        deliver(&mut r.clone(), delivery(), r.outcome, 9),
        Err("no delivery contribution".to_string())
    );
    let mut c = prepare_invocation(
        &mut r,
        decision(ResourceTier::Light),
        "two",
        &s0,
        "task",
        Some("b"),
        vec![],
        &paths(),
        6,
    )
    .unwrap();
    c.status = CandidateStatus::Completed;
    c.duration_ms = 12;
    finish_attempt(&mut r, &c, None);
    let refreshed = RunOutcome { work_result: WorkResult::Ready, ..r.outcome };
    deliver(&mut r, delivery(), refreshed, 9).unwrap();
    assert_eq!(r.status, RunStatus::ReadyForEvaluation);
    assert_eq!(r.candidates[0].duration_ms, 12);
    assert_eq!(r.phase3.as_ref().unwrap().contributing_attempts, ["one"]);
    assert_eq!(of(&r).final_patch_sha256.as_deref(), Some(file_hash(b"final").as_str()));
    assert_eq!(verify_delivery(&run(), &vec![], &vec![], ""), Ok(()));
    assert_eq!(
        verify_delivery(&planned(), &vec![], &vec![], ""),
        Err("planned goal has no complete delivery".to_string())
    );
}

fn delivery() -> Delivery {
    Delivery {
        id: "final".into(),
        workspace: "/final".into(),
        patch: "/final.patch".into(),
        patch_bytes: b"final".to_vec(),
        diff_stats: DiffStats { files_changed: 2, lines_added: 2, lines_removed: 0 },
        checks: vec![check("a", CheckStatus::Passed, Some(0))],
    }
}

#[test]
fn a_single_planner_plans_from_a_sound_baseline() {
    assert_eq!(admit_planner(&planned()), Ok(()));
    let mut broken = planned();
    broken.baseline_checks = vec![];
    assert!(admit_planner(&broken).unwrap_err().starts_with("planned execution requires passing"));
    let mut again = planned();
    invoke(&mut again, "one", "planner", None);
    assert_eq!(again.outcome.phase, RunPhase::Planning);
    assert_eq!(
        admit_planner(&again),
        Err("the single planner cannot be replayed".to_string())
    );
    assert_eq!(accept_planner(None, "print-s0", &snapshot("s0")), Ok(()));
    assert!(accept_planner(None, "edited", &snapshot("s0"))
        .unwrap_err()
        .starts_with("planner edited source"));
    assert!(accept_planner(Some(FailureKind::HarnessProcess), "print-s0", &snapshot("s0"))
        .unwrap_err()
        .starts_with("planner failed"));
    let text = planner_prompt(&planned(), "{}", "{}");
    assert!(text.contains("shared goal maximum 5 supervised calls."));
    assert!(text.ends_with("harness=Some(\"codex\"), model=None, effort=None.\n"));
    assert_eq!(
        identify("p", "rev", "planner", None, "one"),
        "p\nReport identity: plan_revision=rev, task_id=planner, attempt_id=one, generation=1.\n"
    );
}

#[test]
fn prompts_carry_what_came_before() {
    let text = previous_contribution("from the same original baseline", true, Some(&b"+x".to_vec()));
    assert!(text.starts_with("from the task's recorded immutable input\n"));
    assert!(text.ends_with("\nBounded previous contribution (may be truncated):\n+x"));
    let prompt = task_prompt("goal", "contract", "[]", "s0", "before", Some("disk"));
    assert!(prompt.ends_with("before\nAuthorized answer: disk\n"));
    assert!(repair_prompt("g", "c", "f").contains("\nRoot checks failed: f\n"));
    let t = integration_task(&planned(), &plan(), &approved(), "s1");
    assert_eq!(t.write, ["b.rs", "a.rs"]);
    assert_eq!(t.checks, vec![check_name()]);
    assert_eq!(t.acceptance, ["Fix cache"]);
    let classified = TaskFeatures {
        language: None,
        task_kind: TaskKind::Tests,
        scope: TaskScope::Unknown,
    };
    assert_eq!(task_features(classified, &plan().tasks[0]).scope, TaskScope::Localized);
    let mut d = decision(ResourceTier::Light);
    bind_route(&mut d);
    assert_eq!(d.policy_version, "planned-contract-v1");
}

#[test]
fn planned_work_fails_as_a_whole() {
    let mut r = planned();
    assert_eq!(boundary(&r, false, "print", 5), Ok(()));
    assert_eq!(
        boundary(&r, false, "other", 5),
        Err("source drift; planned work stopped".to_string())
    );
    assert_eq!(
        boundary(&r, true, "print", 5),
        Err("goal cancelled or original deadline expired".to_string())
    );
    assert_eq!(drive_failure(&r, false, 5), FailureKind::InternalState);
    assert_eq!(drive_failure(&r, false, 100), FailureKind::Deadline);
    let d = decision(ResourceTier::Light);
    let c = prepare_invocation(&mut r, d, "one", &snapshot("s0"), "task", Some("a"), vec![], &paths(), 5)
        .unwrap();
    let e = Execution {
        candidate: c,
        admission_released: true,
        failure: None,
        checkpoint: Checkpoint::Nothing,
    };
    assert_eq!(execution_failure(&r, &e, false, 5), Some(FailureKind::HarnessProcess));
    let bad = vec![check("a", CheckStatus::Failed, Some(1))];
    let good = vec![check("a", CheckStatus::Passed, Some(0))];
    assert_eq!(child_failure(&good, &bad), FailureKind::TargetVerification);
    assert_eq!(child_failure(&good, &good), FailureKind::VerificationUnknown);
    assert!(checks_passed(&good) && !checks_passed(&bad) && !checks_passed(&vec![]));
    assert_eq!(
        root_failure(&r, &bad),
        Err("root verification lacks a contribution".to_string())
    );
    record_root_failure(&mut r, FailureKind::VerificationUnknown);
    assert_eq!(r.outcome.verification, VerificationState::Inconclusive);
    fail(&mut r, FailureKind::Cancelled, "stopped", 9);
    assert_eq!(of(&r).error.as_deref(), Some("stopped"));
    assert_eq!(r.outcome.work_result, WorkResult::Cancelled);
    assert_eq!(r.attempts[0].outcome, "not_launched");
    assert!(r.candidates.is_empty());
}

fn returned(r: &mut RunRecord, id: &str, role: &str, task: Option<&str>) -> Execution {
    let d = decision(ResourceTier::Standard);
    let input = of(r).snapshots.last().unwrap().clone();
    let mut candidate: CandidateRecord =
        prepare_invocation(r, d, id, &input, role, task, vec![], &paths(), 5).unwrap();
    candidate.status = CandidateStatus::Completed;
    Execution { candidate, admission_released: true, failure: None, checkpoint: Checkpoint::Nothing }
}

fn take(r: &mut RunRecord, e: &Execution, report: Report, changed: &[&str]) -> Result<Child, String> {
    let tree = TextMap::new();
    take_child(r, 1, e, report, &plan().tasks[1], &words(changed), &tree, &tree, false, "q", 6)
}

#[test]
fn a_planned_goal_opens_once_and_plans_in_order() {
    let mut r = planned();
    assert_eq!(begin(&r, false, "print", 5), Ok(Opening::Work));
    assert!(begin(&r, true, "print", 5).is_err());
    r.phase3.as_mut().unwrap().planning.as_mut().unwrap().plan = None;
    assert_eq!(begin(&r, false, "print", 5), Ok(Opening::Plan));
    let e = returned(&mut r, "one", "planner", None);
    let mut edited = r.clone();
    assert!(take_planner(&mut edited, &e, false, "edited", &snapshot("s0"), 6)
        .unwrap_err()
        .starts_with("planner edited source"));
    assert!(edited.attempts[0].detail.result.is_some());
    assert_eq!(take_planner(&mut r, &e, false, "print-s0", &snapshot("s0"), 6), Ok(()));
    assert!(begin(&r, false, "print", 6).is_err());
    let kinds = vec![vec![Some(PathKind::Directory)], vec![Some(PathKind::File)]];
    let l = lanes(&plan(), &kinds, &policy()).unwrap();
    assert_eq!(l.iter().map(|l| l.index).collect::<Vec<_>>(), [1, 0]);
    assert_eq!(
        l.iter().map(|l| l.tier).collect::<Vec<_>>(),
        [ResourceTier::Standard, ResourceTier::Strong]
    );
    let routes = vec![decision(ResourceTier::Standard), decision(ResourceTier::Strong)];
    let tasks = plan_tasks(&plan(), &l, routes);
    assert_eq!((tasks[0].id.as_str(), tasks[1].id.as_str()), ("a", "b"));
    assert_eq!(tasks[1].decision.selected.tier, ResourceTier::Strong);
    let mut cyclic = plan();
    cyclic.tasks[1].prerequisites = words(&["b"]);
    assert!(lanes(&cyclic, &kinds, &policy()).is_err());
}

#[test]
fn only_checked_work_in_scope_is_integrated() {
    let mut r = planned();
    match next_move(&r, false, "print", &vec![], 5) {
        Ok(Move::Work(c)) => assert_eq!((c.index, c.input, c.consumed.len()), (1, 0, 0)),
        other => panic!("{other:?}"),
    }
    assert!(next_move(&r, false, "other", &vec![], 5).is_err());
    let e = returned(&mut r, "one", "task", Some("a"));
    let mut outside = r.clone();
    assert_eq!(
        take(&mut outside, &e, Report::Nothing, &["b.rs"]),
        Err("out-of-scope write: b.rs".to_string())
    );
    assert_eq!(outside.attempts[0].detail.failure, Some(FailureKind::Authorization));
    let mut held = r.clone();
    let stuck = Execution { admission_released: false, ..e.clone() };
    assert_eq!(take(&mut held, &stuck, Report::Nothing, &[]), Ok(Child::Stopped));
    assert_eq!(held.status, RunStatus::Failed);
    assert_eq!(take(&mut r, &e, Report::Nothing, &["a.rs"]), Ok(Child::Check));
    let with = |status, code| CandidateRecord {
        checks: vec![check("a", status, Some(code))],
        ..e.candidate.clone()
    };
    let good = vec![check("a", CheckStatus::Passed, Some(0))];
    let mut failed = r.clone();
    assert_eq!(
        take_checks(&mut failed, 1, &with(CheckStatus::Failed, 1), &good, 6),
        Checked::Retry
    );
    assert_eq!(role_of(&of(&failed).tasks[1]), "repair");
    let mut unknown = r.clone();
    assert_eq!(
        take_checks(&mut unknown, 1, &with(CheckStatus::Failed, 127), &good, 6),
        Checked::Stopped
    );
    assert_eq!(
        of(&unknown).error.as_deref(),
        Some("child checks failed; shared recovery is unavailable or inappropriate")
    );
    assert_eq!(
        take_checks(&mut r, 1, &with(CheckStatus::Passed, 0), &vec![], 6),
        Checked::Integrate
    );
    assert_eq!(r.attempts[0].detail.failure, None);
}

#[test]
fn reports_put_their_task_aside() {
    let mut r = planned();
    let e = returned(&mut r, "one", "task", Some("a"));
    let question =
        CheckpointReport { question: "Which?".into(), choices: vec![], category: None };
    let mut asked = r.clone();
    assert_eq!(take(&mut asked, &e, Report::Question(question), &[]), Ok(Child::Asked));
    assert_eq!(asked.outcome.waiting_on, WaitingOn::Human);
    assert_eq!(of(&asked).tasks[1].state, TaskState::Waiting);
    let mut unread = r.clone();
    assert_eq!(
        take(&mut unread, &e, Report::Unreadable("bad json".into()), &[]),
        Err("bad json".to_string())
    );
    let mut helped = r.clone();
    let help = DependencyReport { task_id: "a".into(), ..report("one", None, Some("hint")) };
    assert_eq!(take(&mut helped, &e, Report::Dependency(help.clone()), &[]), Ok(Child::Continued));
    assert_eq!(helped.outcome.waiting_on, WaitingOn::Dependency);
    let stale = DependencyReport { plan_revision: "old".into(), ..help.clone() };
    assert!(take(&mut r.clone(), &e, Report::Dependency(stale), &[]).is_err());
    r.phase3.as_mut().unwrap().max_invocations = 2;
    assert_eq!(
        take(&mut r, &e, Report::Dependency(help), &[]),
        Err("checkpoint cannot continue: goal's shared extra is unavailable".to_string())
    );
}

#[test]
fn a_goal_is_delivered_only_where_its_root_checks_pass() {
    let mut r = planned();
    let good = vec![check("a", CheckStatus::Passed, Some(0))];
    let bad = vec![check("a", CheckStatus::Failed, Some(1))];
    assert_eq!(check_artifacts(&r, &vec![]), Ok(()));
    assert_eq!(take_root_checks(&mut r.clone(), good.clone(), 6), Ok(Root::Deliver));
    assert_eq!(
        take_root_checks(&mut r.clone(), bad.clone(), 6),
        Err("root verification lacks a contribution".to_string())
    );
    let e = returned(&mut r, "one", "task", Some("a"));
    finish_attempt(&mut r, &e.candidate, None);
    let e = returned(&mut r, "two", "task", Some("b"));
    finish_attempt(&mut r, &e.candidate, None);
    assert_eq!(take_root_checks(&mut r.clone(), bad.clone(), 6), Ok(Root::Repair));
    let mut strict = r.clone();
    strict.phase3.as_mut().unwrap().no_retry = true;
    assert_eq!(take_root_checks(&mut strict, bad.clone(), 6), Ok(Root::Stopped));
    assert_eq!(strict.outcome.verification, VerificationState::Failed);
    let e = returned(&mut r, "three", "repair", None);
    let tree = TextMap::new();
    let t = integration_task(&r, &plan(), &approved(), "s0");
    let repair = |r: &mut RunRecord, reports| {
        take_repair(r, &e, reports, &t, &words(&["a.rs"]), &tree, &tree, false, 6)
    };
    let mut greedy = r.clone();
    assert_eq!(repair(&mut greedy, true), Ok(Child::Stopped));
    assert_eq!(
        of(&greedy).error.as_deref(),
        Some("integration repair cannot request another continuation")
    );
    assert_eq!(repair(&mut r, false), Ok(Child::Check));
    let with = |checks: &Vec<CheckResult>| CandidateRecord {
        checks: checks.clone(),
        ..e.candidate.clone()
    };
    assert_eq!(take_repair_checks(&mut r.clone(), &with(&bad), 6), Checked::Stopped);
    assert_eq!(take_repair_checks(&mut r, &with(&good), 6), Checked::Integrate);
    assert_eq!(of(&r).root_checks, good);
    assert_eq!(take_repaired_checks(&mut r.clone(), bad, 6), Root::Stopped);
    assert_eq!(take_repaired_checks(&mut r, good, 6), Root::Deliver);
    abandon(&mut r, false, "disk full", 7);
    assert_eq!(of(&r).error.as_deref(), Some("disk full"));
    assert_eq!(r.phase3.unwrap().failure, Some(FailureKind::InternalState));
}

#[test]
fn a_returned_plan_is_bounded_and_has_its_envelope() {
    let r = planned();
    let p = of(&r);
    let tree: TextMap<PathKind> = TextMap::new();
    let limit = "x".repeat(32 * 1024);
    assert_eq!(check_length(&limit), Ok(()));
    assert_eq!(check_length(&format!("{limit}x")), Err("plan exceeds 32 KiB".to_string()));
    assert_eq!(
        parse(&format!("{limit}x"), Some(plan()), &tree, p, 4),
        Err("plan exceeds 32 KiB".to_string())
    );
    assert_eq!(
        parse("text", None, &tree, p, 4),
        Err("final result must be one dispatch_plan envelope".to_string())
    );
    assert_eq!(parse("text", Some(plan()), &tree, p, 4), Ok(plan()));
    let refused = validate(&plan(), &tree, p, 0).unwrap_err();
    assert_eq!(parse("text", Some(plan()), &tree, p, 0), Err(refused));
}

#[test]
fn a_checkpoint_comes_before_a_dependency() {
    let question = CheckpointReport { question: "Which?".into(), choices: vec![], category: None };
    let needs = report("attempt", Some("one"), None);
    let named = Some("{\"dispatch_dependency\": {}}");
    assert!(reports(true, None) && reports(false, named));
    assert!(!reports(false, Some("done")) && !reports(false, None));
    assert_eq!(
        report_of(Some(Ok(question.clone())), named, Ok(needs.clone())),
        Report::Question(question)
    );
    assert_eq!(
        report_of(Some(Err("no question".into())), named, Ok(needs.clone())),
        Report::Unreadable("no question".into())
    );
    assert_eq!(report_of(None, named, Ok(needs.clone())), Report::Dependency(needs.clone()));
    assert_eq!(
        report_of(None, named, Err("two envelopes".into())),
        Report::Unreadable("two envelopes".into())
    );
    assert_eq!(report_of(None, Some("done"), Ok(needs)), Report::Nothing);
}

fn settings() -> LaunchSettings {
    let agent = |model: &str| AgentSettings {
        model: Some(model.into()),
        effort: Some("high".into()),
        read_only: false,
    };
    LaunchSettings {
        verify: vec!["make test".into()],
        claude: agent("first"),
        codex: agent("second"),
    }
}

#[test]
fn planners_only_read_and_no_check_runs_with_an_agent() {
    let planner = invocation_settings(settings(), Agent::Claude, "planner");
    assert!(planner.claude.read_only && !planner.codex.read_only);
    assert!(planner.verify.is_empty());
    let planner = invocation_settings(settings(), Agent::Codex, "planner");
    assert!(planner.codex.read_only && !planner.claude.read_only);
    let worker = invocation_settings(settings(), Agent::Codex, "implementation");
    assert_eq!(worker, LaunchSettings { verify: vec![], ..settings() });
}

#[test]
fn a_recovery_is_bound_only_by_what_the_goal_fixed() {
    let mut policy = run().phase3.unwrap();
    policy.fixed_model = None;
    policy.fixed_effort = Some("low".into());
    let free = recovery_settings(settings(), Agent::Claude, &policy);
    assert_eq!((free.claude.model, free.claude.effort.as_deref()), (None, Some("low")));
    assert_eq!(free.codex, settings().codex);
    assert_eq!(free.verify, ["make test"]);
    policy.fixed_model = Some("own".into());
    let fixed = recovery_settings(settings(), Agent::Codex, &policy);
    assert_eq!(fixed.codex.model.as_deref(), Some("own"));
    assert_eq!(fixed.claude, settings().claude);
}
