//! Planned work: one planner, then its tasks one after another, each from an immutable input to a
//! checked artifact, with one extra invocation that the whole goal shares.

use vstd::prelude::*;

pub mod drive;

use crate::orchestrator::native::{
    check_verdict, fresh_attempt, fresh_candidate, interrupted, interruption, prepare_input,
    unreturned, verdict, AttemptPaths,
};
use crate::orchestrator::phase3::{after_stop, closed_attempt, stop, Execution};
use crate::reviewer::{lossy, lossy_text};
use crate::planning::{
    all_passed, artifact_error, checks_passed, contains, count_not_begun, depends, depends_on,
    find_task, not_begun, path, path_error, planning, planning_of, task_with, verify_artifact,
    within, Artifact, ArtifactFacts, DependencyReport, PathKind, Plan, Planning, Snapshot, Task,
    TaskSpec, TaskState,
};

use crate::text::{
    before, before_is_irreflexive, before_is_total, before_is_transitive, blank, byte_len, bytes_in,
    decimal, decimal_of, is_blank, optional_str, optional_view, replace_text, replaced, same,
    same_optional, show, shown, sorts_before, texts,
};
use crate::text_map::TextMap;
use crate::digest::{file_hash, hash_text};
use crate::record::{
    AdmissionSummary, AttemptDetail, AttemptRecord, CandidateRecord, CandidateStatus, CheckResult,
    Clarification, DiffStats, FailureKind, GoalExecution, LifecycleState, QuestionState,
    ReviewState, RunOutcome, RunPhase, RunRecord, RunStatus, VerificationState, WaitingOn,
    WorkResult, same_candidate,
};
use crate::router::{AllocationDecision, ResourceTier, TaskFeatures, TaskScope};
use crate::bytes::piece;

verus! {

/// A run with another plan.
pub open spec fn with_planning(run: RunRecord, p: Planning) -> RunRecord {
    RunRecord {
        phase3: Some(GoalExecution { planning: Some(p), ..run.phase3->0 }),
        ..run
    }
}

/// The attempts of a run after it was stopped.
pub open spec fn stopped_attempts(
    new: Vec<AttemptRecord>,
    run: RunRecord,
    failure: FailureKind,
    now: i64,
) -> bool {
    &&& new@.len() == run.attempts@.len()
    &&& if unreturned(run.attempts@) {
        &&& new@.drop_last() == run.attempts@.drop_last()
        &&& closed_attempt(new@.last(), run.attempts@.last(), run, failure, now)
    } else {
        new == run.attempts
    }
}

/// Whether `new` is the planned run once it failed: its error is recorded, and nothing of it is delivered.
pub open spec fn has_failed(
    new: RunRecord,
    run: RunRecord,
    failure: FailureKind,
    message: Seq<char>,
    now: i64,
) -> bool {
    let p = planning_of(new)->0;
    &&& p == (Planning { error: p.error, ..planning_of(run)->0 })
    &&& optional_view(p.error) == Some(message)
    &&& new == after_stop(
        RunRecord {
            candidates: new.candidates,
            phase3: Some(
                GoalExecution { planning: Some(p), final_attempt_id: None, ..run.phase3->0 },
            ),
            ..run
        },
        new.attempts,
        failure,
        now,
    )
    &&& new.candidates@.len() == 0
    &&& stopped_attempts(new.attempts, run, failure, now)
}

/// Stops a planned run: its error is recorded, and nothing of it is delivered.
pub fn fail(run: &mut RunRecord, failure: FailureKind, message: &str, now: i64)
    requires
        planning_of(*old(run)) is Some,
    ensures
        has_failed(*final(run), *old(run), failure, message@, now),
{
    if let Some(policy) = &mut run.phase3 {
        policy.final_attempt_id = None;
        if let Some(p) = &mut policy.planning {
            p.error = Some(message.to_owned());
        }
    }
    run.candidates = Vec::new();
    stop(run, failure, now);
}

/// Why work may not go on, if it may not.
pub open spec fn boundary_error(
    run: RunRecord,
    cancelled: bool,
    fingerprint: Seq<char>,
    now: i64,
) -> Option<Seq<char>> {
    if cancelled || now >= run.phase3->0.deadline_at {
        Some("goal cancelled or original deadline expired"@)
    } else if fingerprint != run.source_fingerprint@ {
        Some("source drift; planned work stopped"@)
    } else {
        None
    }
}

/// Refuses to go on with work that was cancelled, whose deadline passed or whose source changed.
/// `fingerprint` is that of the source now.
pub fn boundary(run: &RunRecord, cancelled: bool, fingerprint: &str, now: i64) -> (r: Result<
    (),
    String,
>)
    requires
        run.phase3 is Some,
    ensures
        match boundary_error(*run, cancelled, fingerprint@, now) {
            Some(reason) => r matches Err(e) && e@ == reason,
            None => r is Ok,
        },
{
    let expired = match &run.phase3 {
        Some(policy) => now >= policy.deadline_at,
        None => true,
    };
    if cancelled || expired {
        Err("goal cancelled or original deadline expired".to_owned())
    } else if !same(fingerprint, run.source_fingerprint.as_str()) {
        Err("source drift; planned work stopped".to_owned())
    } else {
        Ok(())
    }
}

/// Whether an attempt spent the extra invocation.
pub open spec fn is_extra(a: AttemptRecord) -> bool {
    a.role@ == "repair"@ || a.role@ == "continuation"@
}

/// Whether the extra invocation that the goal shares is still there: nothing spent it, the budget has
/// room for it beside every task that was not begun, and the deadline has not passed.
pub open spec fn extra_available(run: RunRecord, now: i64) -> bool {
    &&& forall|i: int| 0 <= i < run.attempts@.len() ==> !is_extra(#[trigger] run.attempts@[i])
    &&& run.attempts@.len() + not_begun(planning_of(run)->0.tasks@, run.attempts@)
        < run.phase3->0.max_invocations
    &&& now < run.phase3->0.deadline_at
}

/// Whether the extra invocation that the goal shares is still there.
pub fn has_extra(run: &RunRecord, now: i64) -> (r: bool)
    requires
        planning_of(*run) is Some,
    ensures
        r == extra_available(*run, now),
{
    let mut i: usize = 0;
    while i < run.attempts.len()
        invariant
            i <= run.attempts.len(),
            forall|k: int| 0 <= k < i ==> !is_extra(#[trigger] run.attempts@[k]),
        decreases run.attempts.len() - i,
    {
        if same(run.attempts[i].role.as_str(), "repair") || same(
            run.attempts[i].role.as_str(),
            "continuation",
        ) {
            assert(is_extra(run.attempts@[i as int]));
            return false;
        }
        i += 1;
    }
    match (&run.phase3, planning(run)) {
        (Some(policy), Some(p)) => {
            let missing = count_not_begun(&p.tasks, &run.attempts);
            let used: u128 = run.attempts.len() as u128 + missing as u128;
            used < policy.max_invocations as u128 && now < policy.deadline_at
        },
        _ => false,
    }
}

/// The extra invocation is shared: once a repair or a continuation was attempted, there is none left.
pub proof fn the_extra_is_spent_once(run: RunRecord, i: int, now: i64)
    requires
        0 <= i < run.attempts@.len(),
        is_extra(run.attempts@[i]),
    ensures
        !extra_available(run, now),
{
}

/// The extra invocation never takes the place of a task: with it, every task that was not begun still
/// fits in the budget.
pub proof fn the_extra_leaves_room_for_every_task(run: RunRecord, now: i64)
    requires
        extra_available(run, now),
    ensures
        run.attempts@.len() + 1 + not_begun(planning_of(run)->0.tasks@, run.attempts@)
            <= run.phase3->0.max_invocations,
{
}

/// The features that a task is routed by: its reach is what its contract says, whatever its objective
/// suggests.
pub fn task_features(classified: TaskFeatures, task: &TaskSpec) -> (r: TaskFeatures)
    ensures
        r == (TaskFeatures {
            scope: (if task.write@.len() == 1 {
                TaskScope::Localized
            } else {
                TaskScope::MultiFile
            }),
            ..classified
        }),
{
    let mut features = classified;
    features.scope = if task.write.len() == 1 {
        TaskScope::Localized
    } else {
        TaskScope::MultiFile
    };
    features
}

/// States on a decision that it was made for a planned task.
pub fn bind_route(decision: &mut AllocationDecision)
    ensures
        *final(decision) == (AllocationDecision {
            policy_version: final(decision).policy_version,
            reason: final(decision).reason,
            ..*old(decision)
        }),
        final(decision).policy_version@ == "planned-contract-v1"@,
        final(decision).reason@
            == "Validated child scope; owner risk/check mapping where configured. Planner labels do not establish suitability; private standalone policy is excluded."@,
{
    decision.policy_version = "planned-contract-v1".to_owned();
    decision.reason =
        "Validated child scope; owner risk/check mapping where configured. Planner labels do not establish suitability; private standalone policy is excluded.".to_owned();
}

/// An attempt of a planned run: a new one, with its role, its task and what it starts from.
pub open spec fn planned_attempt(
    a: AttemptRecord,
    run: RunRecord,
    decision: AllocationDecision,
    id: Seq<char>,
    input: Snapshot,
    role: Seq<char>,
    task: Option<Seq<char>>,
    consumed: Vec<String>,
    paths: AttemptPaths,
    now: i64,
) -> bool {
    &&& exists|f: AttemptRecord| #[trigger]
        fresh_attempt(f, run, Some(decision), None, id, input.path@, paths, now) && a == (
        AttemptRecord {
            role: a.role,
            detail: AttemptDetail {
                task_id: a.detail.task_id,
                plan_revision: Some(planning_of(run)->0.revision),
                input_snapshot_id: Some(input.id),
                consumed_artifacts: consumed,
                ..f.detail
            },
            ..f
        })
    &&& a.role@ == role
    &&& optional_view(a.detail.task_id) == task
}

/// Prepares an invocation of a planned run on an immutable input. The run then works; it delivers
/// nothing meanwhile.
pub fn prepare_invocation(
    run: &mut RunRecord,
    decision: AllocationDecision,
    id: &str,
    input: &Snapshot,
    role: &str,
    task: Option<&str>,
    consumed: Vec<String>,
    paths: &AttemptPaths,
    now: i64,
) -> (r: Result<CandidateRecord, String>)
    requires
        planning_of(*old(run)) is Some,
        old(run).attempts@.len() < u32::MAX,
    ensures
        r matches Ok(c) && fresh_candidate(c, id@, decision.selected.harness@, *paths),
        final(run).attempts@.len() == old(run).attempts@.len() + 1,
        final(run).attempts@.drop_last() == old(run).attempts@,
        planned_attempt(
            final(run).attempts@.last(),
            *old(run),
            decision,
            id@,
            *input,
            role@,
            optional_str(task),
            consumed,
            *paths,
            now,
        ),
        final(run).candidates@.len() == 0,
        *final(run) == (RunRecord {
            status: RunStatus::Running,
            completed_at: None,
            outcome: RunOutcome {
                lifecycle: LifecycleState::Working,
                work_result: WorkResult::Pending,
                review: ReviewState::NotRequested,
                waiting_on: WaitingOn::Nothing,
                verification: VerificationState::NotRun,
                phase: (if role@ == "planner"@ {
                    RunPhase::Planning
                } else {
                    RunPhase::Executing
                }),
                ..old(run).outcome
            },
            attempts: final(run).attempts,
            candidates: final(run).candidates,
            ..*old(run)
        }),
{
    let revision = match planning(run) {
        Some(p) => p.revision.clone(),
        None => String::new(),
    };
    let candidate = match prepare_input(
        run,
        Some(decision),
        None,
        id,
        input.path.as_str(),
        paths,
        now,
    ) {
        Ok(candidate) => candidate,
        Err(e) => {
            return Err(e);
        },
    };
    let ghost fresh = run.attempts@.last();
    let n = run.attempts.len();
    let task_id = match task {
        Some(task) => Some(task.to_owned()),
        None => None,
    };
    let attempt = &mut run.attempts[n - 1];
    attempt.role = role.to_owned();
    attempt.detail.task_id = task_id;
    attempt.detail.plan_revision = Some(revision);
    attempt.detail.input_snapshot_id = Some(input.id.clone());
    attempt.detail.consumed_artifacts = consumed;
    run.candidates = Vec::new();
    run.status = RunStatus::Running;
    run.completed_at = None;
    run.outcome.lifecycle = LifecycleState::Working;
    run.outcome.work_result = WorkResult::Pending;
    run.outcome.review = ReviewState::NotRequested;
    run.outcome.waiting_on = WaitingOn::Nothing;
    run.outcome.verification = VerificationState::NotRun;
    run.outcome.phase = if same(role, "planner") {
        RunPhase::Planning
    } else {
        RunPhase::Executing
    };
    proof {
        assert(fresh_attempt(
            fresh,
            *old(run),
            Some(decision),
            None,
            id@,
            input.path@,
            *paths,
            now,
        ));
        assert(run.attempts@.drop_last() =~= old(run).attempts@);
    }
    Ok(candidate)
}

/// What an attempt is told of its own identity.
pub open spec fn identity_text(
    prompt: Seq<char>,
    revision: Seq<char>,
    role: Seq<char>,
    task: Option<Seq<char>>,
    attempt: Seq<char>,
) -> Seq<char> {
    prompt + "\nReport identity: plan_revision="@ + revision + ", task_id="@ + (match task {
        Some(id) => id,
        None => if role == "planner"@ {
            "planner"@
        } else {
            "integration"@
        },
    }) + ", attempt_id="@ + attempt + ", generation=1.\n"@
}

/// Adds to a prompt what the attempt must state of itself in a report. The identity is known only once
/// the attempt was created.
pub fn identify(
    prompt: &str,
    revision: &str,
    role: &str,
    task: Option<&str>,
    attempt: &str,
) -> (r: String)
    ensures
        r@ == identity_text(prompt@, revision@, role@, optional_str(task), attempt@),
{
    let mut text = prompt.to_owned();
    text.push_str("\nReport identity: plan_revision=");
    text.push_str(revision);
    text.push_str(", task_id=");
    match task {
        Some(id) => text.push_str(id),
        None => if same(role, "planner") {
            text.push_str("planner")
        } else {
            text.push_str("integration")
        },
    }
    text.push_str(", attempt_id=");
    text.push_str(attempt);
    text.push_str(", generation=1.\n");
    text
}

/// Whether `new` is the planned run once it was recorded what came of its last attempt. It holds no
/// candidate until it is delivered.
pub open spec fn has_recorded(
    new: RunRecord,
    run: RunRecord,
    candidate: CandidateRecord,
    failure: Option<FailureKind>,
) -> bool {
    let was = run.attempts@.last();
    let last = new.attempts@.last();
    &&& new == (RunRecord { attempts: new.attempts, candidates: new.candidates, ..run })
    &&& new.candidates@.len() == 0
    &&& new.attempts@.len() == run.attempts@.len()
    &&& new.attempts@.drop_last() == run.attempts@.drop_last()
    &&& last == (AttemptRecord {
        detail: AttemptDetail {
            result: last.detail.result,
            failure,
            admission: run.admission,
            ..was.detail
        },
        ..was
    })
    &&& last.detail.result matches Some(c) && same_candidate(c, candidate)
}

/// Records what came of the last attempt; a planned run holds no candidate until it is delivered.
pub fn finish_attempt(run: &mut RunRecord, candidate: &CandidateRecord, failure: Option<FailureKind>)
    requires
        old(run).attempts@.len() > 0,
    ensures
        has_recorded(*final(run), *old(run), *candidate, failure),
{
    let n = run.attempts.len();
    let admission = match &run.admission {
        Some(a) => Some(
            AdmissionSummary { attempt_id: a.attempt_id.clone(), reconciling: a.reconciling },
        ),
        None => None,
    };
    let attempt = &mut run.attempts[n - 1];
    attempt.detail.result = Some(candidate.copied());
    attempt.detail.failure = failure;
    attempt.detail.admission = admission;
    run.candidates = Vec::new();
    assert(run.attempts@.drop_last() =~= old(run).attempts@.drop_last());
}

/// What kept an invocation from completing safely, if anything did.
pub open spec fn execution_error(
    run: RunRecord,
    e: Execution,
    cancelled: bool,
    now: i64,
) -> Option<FailureKind> {
    if cancelled {
        Some(interruption(run, now))
    } else if !e.admission_released {
        Some(FailureKind::InternalState)
    } else if e.candidate.status != CandidateStatus::Completed {
        Some(
            match e.failure {
                Some(failure) => failure,
                None => FailureKind::HarnessProcess,
            },
        )
    } else {
        None
    }
}

/// What kept an invocation from completing safely, if anything did.
pub fn execution_failure(run: &RunRecord, e: &Execution, cancelled: bool, now: i64) -> (r: Option<
    FailureKind,
>)
    requires
        run.phase3 is Some,
    ensures
        r == execution_error(*run, *e, cancelled, now),
{
    if cancelled {
        Some(interrupted(run, now))
    } else if !e.admission_released {
        Some(FailureKind::InternalState)
    } else if e.candidate.status != CandidateStatus::Completed {
        match e.failure {
            Some(failure) => Some(failure),
            None => Some(FailureKind::HarnessProcess),
        }
    } else {
        None
    }
}

/// The failure under which a run stops whose work returned an error.
pub fn drive_failure(run: &RunRecord, cancelled: bool, now: i64) -> (r: FailureKind)
    requires
        run.phase3 is Some,
    ensures
        r == (if cancelled || now >= run.phase3->0.deadline_at {
            interruption(*run, now)
        } else {
            FailureKind::InternalState
        }),
{
    let expired = match &run.phase3 {
        Some(policy) => now >= policy.deadline_at,
        None => true,
    };
    if cancelled || expired {
        interrupted(run, now)
    } else {
        FailureKind::InternalState
    }
}

/// Refuses to plan a second time, or on a baseline whose checks do not pass.
pub fn admit_planner(run: &RunRecord) -> (r: Result<(), String>)
    ensures
        if run.attempts@.len() > 0 {
            r matches Err(e) && e@ == "the single planner cannot be replayed"@
        } else if !all_passed(run.baseline_checks@) {
            r matches Err(e) && e@
                == "planned execution requires passing baseline checks; fix the verification contract before planning"@
        } else {
            r is Ok
        },
{
    if run.attempts.len() > 0 {
        Err("the single planner cannot be replayed".to_owned())
    } else if !checks_passed(&run.baseline_checks) {
        Err(
            "planned execution requires passing baseline checks; fix the verification contract before planning".to_owned(),
        )
    } else {
        Ok(())
    }
}

/// Refuses the plan of a planner that failed or edited its input. `fingerprint` is that of its
/// workspace now.
pub fn accept_planner(
    failure: Option<FailureKind>,
    fingerprint: &str,
    input: &Snapshot,
) -> (r: Result<(), String>)
    ensures
        if failure is Some {
            r matches Err(e) && e@
                == "planner failed; its invocation and evidence are retained; no second plan is permitted"@
        } else if fingerprint@ != input.fingerprint@ {
            r matches Err(e) && e@
                == "planner edited source; edits were discarded from delivery and retained in its attempt"@
        } else {
            r is Ok
        },
{
    if failure.is_some() {
        Err(
            "planner failed; its invocation and evidence are retained; no second plan is permitted".to_owned(),
        )
    } else if !same(fingerprint, input.fingerprint.as_str()) {
        Err(
            "planner edited source; edits were discarded from delivery and retained in its attempt".to_owned(),
        )
    } else {
        Ok(())
    }
}

/// A task as it enters the plan.
pub fn new_task(id: &str, decision: AllocationDecision, provenance: String) -> (r: Task)
    ensures
        r.id@ == id@,
        r.state == TaskState::Pending,
        r.decision == decision,
        r.feature_provenance == provenance,
        r.input is None,
        r.artifact is None,
        r.pending_prerequisite is None,
        r.extra_reason is None,
{
    Task {
        id: id.to_owned(),
        state: TaskState::Pending,
        decision,
        feature_provenance: provenance,
        input: None,
        artifact: None,
        pending_prerequisite: None,
        extra_reason: None,
    }
}

/// Makes a validated plan and its tasks those of the run.
pub fn accept_plan(run: &mut RunRecord, plan: Plan, tasks: Vec<Task>)
    requires
        planning_of(*old(run)) is Some,
    ensures
        *final(run) == with_planning(
            *old(run),
            Planning { plan: Some(plan), tasks, ..planning_of(*old(run))->0 },
        ),
{
    if let Some(policy) = &mut run.phase3 {
        if let Some(p) = &mut policy.planning {
            p.plan = Some(plan);
            p.tasks = tasks;
        }
    }
}

/// Whether a task was integrated and left an artifact.
pub open spec fn is_done(tasks: Seq<Task>, id: Seq<char>) -> bool {
    exists|i: int|
        0 <= i < tasks.len() && (#[trigger] tasks[i]).id@ == id && tasks[i].state
            == TaskState::Integrated && tasks[i].artifact is Some
}

/// Whether every one of these tasks is done.
pub open spec fn all_done(tasks: Seq<Task>, ids: Seq<String>) -> bool {
    forall|i: int| 0 <= i < ids.len() ==> is_done(tasks, (#[trigger] ids[i])@)
}

/// Whether a task can be worked on: it is pending or waiting, and everything it needs is done.
pub open spec fn is_ready(tasks: Seq<Task>, specs: Seq<TaskSpec>, i: int) -> bool {
    &&& tasks[i].state == TaskState::Pending || tasks[i].state == TaskState::Waiting
    &&& task_with(specs, tasks[i].id@) matches Some(spec) && all_done(tasks, spec.prerequisites@)
    &&& tasks[i].pending_prerequisite matches Some(p) ==> is_done(tasks, p@)
}

/// Whether a task comes next: the first of the ready ones in the order of their identifiers.
pub open spec fn is_next(tasks: Seq<Task>, specs: Seq<TaskSpec>, i: int) -> bool {
    &&& 0 <= i < tasks.len()
    &&& is_ready(tasks, specs, i)
    &&& forall|j: int|
        0 <= j < tasks.len() && #[trigger] is_ready(tasks, specs, j) ==> !before(
            tasks[j].id@,
            tasks[i].id@,
        ) && (j < i ==> tasks[j].id@ != tasks[i].id@)
}

/// Whether every task of a plan is integrated.
pub open spec fn all_integrated(tasks: Seq<Task>) -> bool {
    forall|i: int| 0 <= i < tasks.len() ==> (#[trigger] tasks[i]).state == TaskState::Integrated
}

fn done(tasks: &Vec<Task>, id: &str) -> (r: bool)
    ensures
        r == is_done(tasks@, id@),
{
    let mut i: usize = 0;
    while i < tasks.len()
        invariant
            i <= tasks.len(),
            forall|k: int|
                0 <= k < i ==> !((#[trigger] tasks@[k]).id@ == id@ && tasks@[k].state
                    == TaskState::Integrated && tasks@[k].artifact is Some),
        decreases tasks.len() - i,
    {
        if same(tasks[i].id.as_str(), id) && tasks[i].state == TaskState::Integrated
            && tasks[i].artifact.is_some() {
            assert(tasks@[i as int].id@ == id@);
            return true;
        }
        i += 1;
    }
    false
}

fn ready(tasks: &Vec<Task>, specs: &Vec<TaskSpec>, i: usize) -> (r: bool)
    requires
        i < tasks@.len(),
    ensures
        r == is_ready(tasks@, specs@, i as int),
{
    if tasks[i].state != TaskState::Pending && tasks[i].state != TaskState::Waiting {
        return false;
    }
    let spec = match find_task(specs, tasks[i].id.as_str()) {
        None => {
            return false;
        },
        Some(k) => &specs[k],
    };
    let mut j: usize = 0;
    while j < spec.prerequisites.len()
        invariant
            i < tasks@.len(),
            j <= spec.prerequisites.len(),
            task_with(specs@, tasks@[i as int].id@) == Some(*spec),
            forall|k: int| 0 <= k < j ==> is_done(tasks@, (#[trigger] spec.prerequisites@[k])@),
        decreases spec.prerequisites.len() - j,
    {
        if !done(tasks, spec.prerequisites[j].as_str()) {
            assert(!is_done(tasks@, spec.prerequisites@[j as int]@));
            return false;
        }
        j += 1;
    }
    match &tasks[i].pending_prerequisite {
        Some(p) => done(tasks, p.as_str()),
        None => true,
    }
}

/// The task that is worked on next; none where all are integrated. Independent branches still run one
/// after the other.
pub fn next_task(tasks: &Vec<Task>, specs: &Vec<TaskSpec>) -> (r: Result<Option<usize>, String>)
    ensures
        match r {
            Ok(None) => all_integrated(tasks@),
            Ok(Some(i)) => !all_integrated(tasks@) && is_next(tasks@, specs@, i as int),
            Err(e) => {
                &&& !all_integrated(tasks@)
                &&& forall|i: int| 0 <= i < tasks@.len() ==> !#[trigger] is_ready(tasks@, specs@, i)
                &&& e@
                    == "unfinished tasks have no satisfiable prerequisites; partial contributions are retained"@
            },
        },
{
    let mut finished = true;
    let mut found: Option<usize> = None;
    let mut i: usize = 0;
    while i < tasks.len()
        invariant
            i <= tasks.len(),
            finished == (forall|k: int|
                0 <= k < i ==> (#[trigger] tasks@[k]).state == TaskState::Integrated),
            match found {
                Some(n) => {
                    &&& n < i
                    &&& is_ready(tasks@, specs@, n as int)
                    &&& forall|j: int|
                        0 <= j < i && #[trigger] is_ready(tasks@, specs@, j) ==> !before(
                            tasks@[j].id@,
                            tasks@[n as int].id@,
                        ) && (j < n ==> tasks@[j].id@ != tasks@[n as int].id@)
                },
                None => forall|j: int| 0 <= j < i ==> !#[trigger] is_ready(tasks@, specs@, j),
            },
        decreases tasks.len() - i,
    {
        if tasks[i].state != TaskState::Integrated {
            finished = false;
            assert(tasks@[i as int].state != TaskState::Integrated);
        }
        if ready(tasks, specs, i) {
            let better = match found {
                Some(n) => sorts_before(tasks[i].id.as_str(), tasks[n].id.as_str()),
                None => true,
            };
            if better {
                proof {
                    if let Some(n) = found {
                        before_is_irreflexive(tasks@[i as int].id@);
                        assert forall|j: int|
                            0 <= j < i + 1 && #[trigger] is_ready(tasks@, specs@, j) implies !before(
                            tasks@[j].id@,
                            tasks@[i as int].id@,
                        ) && (j < i ==> tasks@[j].id@ != tasks@[i as int].id@) by {
                            if j < i {
                                if before(tasks@[j].id@, tasks@[i as int].id@) {
                                    before_is_transitive(
                                        tasks@[j].id@,
                                        tasks@[i as int].id@,
                                        tasks@[n as int].id@,
                                    );
                                }
                            }
                        }
                    } else {
                        before_is_irreflexive(tasks@[i as int].id@);
                    }
                }
                found = Some(i);
            }
        }
        i += 1;
    }
    if finished {
        return Ok(None);
    }
    match found {
        Some(n) => Ok(Some(n)),
        None => Err(
            "unfinished tasks have no satisfiable prerequisites; partial contributions are retained".to_owned(),
        ),
    }
}

/// A task is worked on only after everything it needs was integrated and left an artifact.
pub proof fn next_task_needs_its_prerequisites(tasks: Seq<Task>, specs: Seq<TaskSpec>, i: int)
    requires
        is_next(tasks, specs, i),
    ensures
        task_with(specs, tasks[i].id@) matches Some(spec) && all_done(tasks, spec.prerequisites@),
        tasks[i].state != TaskState::Integrated,
{
}

/// The task that comes next is the same however the tasks are looked at.
pub proof fn next_task_is_unique(tasks: Seq<Task>, specs: Seq<TaskSpec>, a: int, b: int)
    requires
        is_next(tasks, specs, a),
        is_next(tasks, specs, b),
    ensures
        a == b,
{
    before_is_total(tasks[a].id@, tasks[b].id@);
}

/// What an attempt on a task is: the first one, a repair after failed checks, or a continuation of one
/// that stopped to wait.
pub open spec fn role_name(task: Task) -> Seq<char> {
    if task.state == TaskState::Waiting {
        "continuation"@
    } else if task.extra_reason is Some {
        "repair"@
    } else {
        "task"@
    }
}

/// What an attempt on a task is.
pub fn role_of(task: &Task) -> (r: &'static str)
    ensures
        r@ == role_name(*task),
{
    if task.state == TaskState::Waiting {
        "continuation"
    } else if task.extra_reason.is_some() {
        "repair"
    } else {
        "task"
    }
}

/// Whether the last question of a run was answered.
pub open spec fn last_answered(questions: Seq<Clarification>) -> bool {
    questions.len() > 0 && questions.last().state == QuestionState::Answered
}

/// Why a task may not be attempted, if it may not.
pub open spec fn task_refusal(run: RunRecord, task: Task, now: i64) -> Option<Seq<char>> {
    if (task.state == TaskState::Waiting || task.extra_reason is Some) && !extra_available(run, now) {
        Some("shared extra invocation already spent or unavailable"@)
    } else if task.state == TaskState::Waiting && task.pending_prerequisite is None && optional_view(
        task.extra_reason,
    ) != Some("reasoning_assistance"@) && !last_answered(run.phase3->0.questions@) {
        Some("task requires an authorized answer"@)
    } else {
        None
    }
}

/// Refuses to attempt a task a second time without the shared extra invocation, or to continue one
/// whose question was not answered.
pub fn admit_task(run: &RunRecord, task: &Task, now: i64) -> (r: Result<(), String>)
    requires
        planning_of(*run) is Some,
    ensures
        match task_refusal(*run, *task, now) {
            Some(reason) => r matches Err(e) && e@ == reason,
            None => r is Ok,
        },
{
    let continuation = task.state == TaskState::Waiting;
    if continuation || task.extra_reason.is_some() {
        if !has_extra(run, now) {
            return Err("shared extra invocation already spent or unavailable".to_owned());
        }
    }
    if continuation && task.pending_prerequisite.is_none() && !same_optional(
        &task.extra_reason,
        Some("reasoning_assistance"),
    ) {
        let answered = match &run.phase3 {
            Some(policy) => {
                let n = policy.questions.len();
                n > 0 && policy.questions[n - 1].state == QuestionState::Answered
            },
            None => false,
        };
        if !answered {
            return Err("task requires an authorized answer".to_owned());
        }
    }
    Ok(())
}

/// The first task from `from` on with an identifier.
pub open spec fn task_at(tasks: Seq<Task>, id: Seq<char>, from: int) -> Option<int>
    decreases tasks.len() - from,
{
    if from < 0 || from >= tasks.len() {
        None
    } else if tasks[from].id@ == id {
        Some(from)
    } else {
        task_at(tasks, id, from + 1)
    }
}

/// The first artifact from `from` on with an identifier.
pub open spec fn artifact_at(artifacts: Seq<Artifact>, id: Option<Seq<char>>, from: int) -> Option<int>
    decreases artifacts.len() - from,
{
    if from < 0 || from >= artifacts.len() {
        None
    } else if Some(artifacts[from].id@) == id {
        Some(from)
    } else {
        artifact_at(artifacts, id, from + 1)
    }
}

/// The first snapshot from `from` on with an identifier.
pub open spec fn snapshot_at(snapshots: Seq<Snapshot>, id: Option<Seq<char>>, from: int) -> Option<int>
    decreases snapshots.len() - from,
{
    if from < 0 || from >= snapshots.len() {
        None
    } else if Some(snapshots[from].id@) == id {
        Some(from)
    } else {
        snapshot_at(snapshots, id, from + 1)
    }
}

fn find_in_tasks(tasks: &Vec<Task>, id: &str) -> (r: Option<usize>)
    ensures
        match r {
            Some(i) => task_at(tasks@, id@, 0) == Some(i as int) && i < tasks@.len(),
            None => task_at(tasks@, id@, 0) is None,
        },
{
    let mut i: usize = 0;
    while i < tasks.len()
        invariant
            i <= tasks.len(),
            task_at(tasks@, id@, 0) == task_at(tasks@, id@, i as int),
        decreases tasks.len() - i,
    {
        if same(tasks[i].id.as_str(), id) {
            return Some(i);
        }
        i += 1;
    }
    None
}

fn find_artifact(artifacts: &Vec<Artifact>, id: &Option<String>) -> (r: Option<usize>)
    ensures
        match r {
            Some(i) => artifact_at(artifacts@, optional_view(*id), 0) == Some(i as int) && i
                < artifacts@.len(),
            None => artifact_at(artifacts@, optional_view(*id), 0) is None,
        },
{
    let mut i: usize = 0;
    while i < artifacts.len()
        invariant
            i <= artifacts.len(),
            artifact_at(artifacts@, optional_view(*id), 0) == artifact_at(
                artifacts@,
                optional_view(*id),
                i as int,
            ),
        decreases artifacts.len() - i,
    {
        if same_optional(id, Some(artifacts[i].id.as_str())) {
            return Some(i);
        }
        i += 1;
    }
    None
}

/// What a task needs: its declared prerequisites, then the one it asked for.
pub open spec fn needs(spec: TaskSpec, task: Task) -> Seq<Seq<char>> {
    match task.pending_prerequisite {
        Some(p) => texts(spec.prerequisites@).push(p@),
        None => texts(spec.prerequisites@),
    }
}

/// The artifact of one prerequisite, or why it cannot be relied on.
pub open spec fn needed_artifact(
    p: Planning,
    facts: Seq<ArtifactFacts>,
    id: Seq<char>,
) -> Result<int, Seq<char>> {
    match task_at(p.tasks@, id, 0) {
        None => Err("prerequisite missing"@),
        Some(t) => match artifact_at(p.artifacts@, optional_view(p.tasks@[t].artifact), 0) {
            None => Err("prerequisite has no immutable artifact"@),
            Some(a) => match artifact_error(Some(p), p.artifacts@[a], facts[a]) {
                Some(message) => Err(message),
                None => Ok(a),
            },
        },
    }
}

/// Why the first of the prerequisites from `from` on that cannot be relied on cannot be.
pub open spec fn needs_error(
    p: Planning,
    facts: Seq<ArtifactFacts>,
    ids: Seq<Seq<char>>,
    from: int,
) -> Option<Seq<char>>
    decreases ids.len() - from,
{
    if from < 0 || from >= ids.len() {
        None
    } else {
        match needed_artifact(p, facts, ids[from]) {
            Err(message) => Some(message),
            Ok(_) => needs_error(p, facts, ids, from + 1),
        }
    }
}

fn consume(
    run: &RunRecord,
    p: &Planning,
    facts: &Vec<ArtifactFacts>,
    id: &str,
    consumed: &mut Vec<String>,
) -> (r: Result<(), String>)
    requires
        planning_of(*run) == Some(*p),
        facts@.len() == p.artifacts@.len(),
    ensures
        match needed_artifact(*p, facts@, id@) {
            Err(message) => r matches Err(e) && e@ == message,
            Ok(a) => r is Ok && final(consumed)@ == old(consumed)@.push(p.artifacts@[a].id),
        },
{
    let t = match find_in_tasks(&p.tasks, id) {
        None => {
            return Err("prerequisite missing".to_owned());
        },
        Some(t) => t,
    };
    let a = match find_artifact(&p.artifacts, &p.tasks[t].artifact) {
        None => {
            return Err("prerequisite has no immutable artifact".to_owned());
        },
        Some(a) => a,
    };
    match verify_artifact(run, &p.artifacts[a], &facts[a]) {
        Err(e) => Err(e),
        Ok(()) => {
            consumed.push(p.artifacts[a].id.clone());
            Ok(())
        },
    }
}

/// Whether `consumed` names the artifacts of these prerequisites, in order.
pub open spec fn consumes_all(
    consumed: Seq<String>,
    p: Planning,
    facts: Seq<ArtifactFacts>,
    ids: Seq<Seq<char>>,
) -> bool {
    &&& consumed.len() == ids.len()
    &&& forall|i: int|
        0 <= i < ids.len() ==> is_artifact_of(p, facts, #[trigger] ids[i], consumed[i])
}

/// Whether `artifact` names the artifact of a prerequisite.
pub open spec fn is_artifact_of(
    p: Planning,
    facts: Seq<ArtifactFacts>,
    id: Seq<char>,
    artifact: String,
) -> bool {
    match needed_artifact(p, facts, id) {
        Ok(a) => artifact == p.artifacts@[a].id,
        Err(_) => false,
    }
}

/// The artifacts that a task builds on, each of them relied on only after it was verified. `facts` says
/// what is found on disk of each artifact of the plan.
pub fn consumed_artifacts(
    run: &RunRecord,
    spec: &TaskSpec,
    task: &Task,
    facts: &Vec<ArtifactFacts>,
) -> (r: Result<Vec<String>, String>)
    requires
        planning_of(*run) matches Some(p) && facts@.len() == p.artifacts@.len(),
    ensures
        ({
            let p = planning_of(*run)->0;
            match needs_error(p, facts@, needs(*spec, *task), 0) {
                Some(message) => r matches Err(e) && e@ == message,
                None => r matches Ok(consumed) && consumes_all(
                    consumed@,
                    p,
                    facts@,
                    needs(*spec, *task),
                ),
            }
        }),
{
    let p = match planning(run) {
        None => {
            return Err("prerequisite missing".to_owned());
        },
        Some(p) => p,
    };
    let ghost ids = needs(*spec, *task);
    let mut consumed: Vec<String> = Vec::new();
    let mut i: usize = 0;
    while i < spec.prerequisites.len()
        invariant
            i <= spec.prerequisites.len(),
            planning_of(*run) == Some(*p),
            facts@.len() == p.artifacts@.len(),
            ids == needs(*spec, *task),
            consumed@.len() == i,
            needs_error(*p, facts@, ids, 0) == needs_error(*p, facts@, ids, i as int),
            forall|k: int|
                0 <= k < i ==> is_artifact_of(*p, facts@, #[trigger] ids[k], consumed@[k]),
        decreases spec.prerequisites.len() - i,
    {
        let ghost earlier = consumed@;
        assert(ids[i as int] == spec.prerequisites@[i as int]@);
        match consume(run, p, facts, spec.prerequisites[i].as_str(), &mut consumed) {
            Err(e) => {
                return Err(e);
            },
            Ok(()) => {},
        }
        assert(consumed@ =~= earlier.push(consumed@[i as int]));
        assert(is_artifact_of(*p, facts@, ids[i as int], consumed@[i as int]));
        i += 1;
    }
    let ghost earlier = consumed@;
    if let Some(wanted) = &task.pending_prerequisite {
        assert(ids[i as int] == wanted@);
        assert(needs_error(*p, facts@, ids, i as int + 1) is None);
        match consume(run, p, facts, wanted.as_str(), &mut consumed) {
            Err(e) => {
                return Err(e);
            },
            Ok(()) => {},
        }
    }
    Ok(consumed)
}

/// The snapshot that an attempt on a task starts from: the same input again for a repair, the latest one
/// otherwise.
pub fn task_input(p: &Planning, task: &Task) -> (r: Result<usize, String>)
    requires
        p.snapshots@.len() > 0,
    ensures
        if role_name(*task) == "repair"@ {
            match snapshot_at(p.snapshots@, optional_view(task.input), 0) {
                Some(i) => r == Ok::<usize, String>(i as usize) && 0 <= i < p.snapshots@.len(),
                None => r matches Err(e) && e@ == "repair input missing"@,
            }
        } else {
            r == Ok::<usize, String>((p.snapshots@.len() - 1) as usize)
        },
{
    if !same(role_of(task), "repair") {
        return Ok(p.snapshots.len() - 1);
    }
    let mut i: usize = 0;
    while i < p.snapshots.len()
        invariant
            i <= p.snapshots.len(),
            role_name(*task) == "repair"@,
            snapshot_at(p.snapshots@, optional_view(task.input), 0) == snapshot_at(
                p.snapshots@,
                optional_view(task.input),
                i as int,
            ),
        decreases p.snapshots.len() - i,
    {
        if same_optional(&task.input, Some(p.snapshots[i].id.as_str())) {
            return Ok(i);
        }
        i += 1;
    }
    Err("repair input missing".to_owned())
}

/// The least tier of an attempt on a task: a repair runs on a strong resource.
pub fn task_tier(task: &Task, lane: ResourceTier) -> (r: ResourceTier)
    ensures
        r == (if role_name(*task) == "repair"@ {
            ResourceTier::Strong
        } else {
            lane
        }),
{
    if same(role_of(task), "repair") {
        ResourceTier::Strong
    } else {
        lane
    }
}

/// Puts a task to work on an input.
pub fn begin_task(run: &mut RunRecord, index: usize, decision: AllocationDecision, input: &str)
    requires
        planning_of(*old(run)) matches Some(p) && index < p.tasks@.len(),
    ensures
        ({
            let was = planning_of(*old(run))->0;
            let p = planning_of(*final(run))->0;
            let task = p.tasks@[index as int];
            &&& *final(run) == with_planning(*old(run), p)
            &&& p == (Planning { tasks: p.tasks, ..was })
            &&& p.tasks@ == was.tasks@.update(index as int, task)
            &&& task == (Task {
                decision,
                input: task.input,
                state: TaskState::Working,
                ..was.tasks@[index as int]
            })
            &&& optional_view(task.input) == Some(input@)
        }),
{
    if let Some(policy) = &mut run.phase3 {
        if let Some(p) = &mut policy.planning {
            let task = &mut p.tasks[index];
            task.decision = decision;
            task.input = Some(input.to_owned());
            task.state = TaskState::Working;
        }
    }
    assert(planning_of(*run)->0.tasks@ =~= planning_of(*old(run))->0.tasks@.update(
        index as int,
        planning_of(*run)->0.tasks@[index as int],
    ));
}

/// What the single planner is asked to do.
pub open spec fn planner_text(
    run: RunRecord,
    checks: Seq<char>,
    policy: Seq<char>,
    constraints: (Seq<char>, Seq<char>, Seq<char>),
) -> Seq<char> {
    "Read-only planning. Do not edit source or implement work. Produce ONLY a final JSON envelope {\"dispatch_plan\":{\"version\":1,\"tasks\":[{\"id\":\"task-name\",\"objective\":\"bounded objective\",\"read\":[\"file\"],\"write\":[\"file\"],\"acceptance\":[\"criterion\"],\"checks\":[\"approved check ID\"],\"prerequisites\":[],\"inputs\":[\"description\"],\"outputs\":[\"description\"]}]}}. One to four tasks. All tasks required. No commands, grants, model choices, or changed limits. Order overlapping writes with dependencies. Independent branches still execute sequentially. Source scope is this frozen repository; no symlink scopes. One planner only; shared goal maximum "@
        + decimal(run.phase3->0.max_invocations as nat)
        + " supervised calls.\nOriginal goal (verbatim):\n"@ + run.task@
        + "\nApproved check catalog: "@ + checks + "\nOwner risk/verification policy: "@ + policy
        + "\nExplicit resource constraints: harness="@ + constraints.0 + ", model="@ + constraints.1
        + ", effort="@ + constraints.2 + ".\n"@
}

/// What the single planner is asked to do. `checks` and `policy` are the approved checks and the owner's
/// policy as JSON.
pub fn planner_prompt(run: &RunRecord, checks: &str, policy: &str) -> (r: String)
    requires
        run.phase3 is Some,
    ensures
        r@ == planner_text(
            *run,
            checks@,
            policy@,
            (
                shown(run.phase3->0.fixed_harness),
                shown(run.phase3->0.fixed_model),
                shown(run.phase3->0.fixed_effort),
            ),
        ),
{
    let mut text =
        "Read-only planning. Do not edit source or implement work. Produce ONLY a final JSON envelope {\"dispatch_plan\":{\"version\":1,\"tasks\":[{\"id\":\"task-name\",\"objective\":\"bounded objective\",\"read\":[\"file\"],\"write\":[\"file\"],\"acceptance\":[\"criterion\"],\"checks\":[\"approved check ID\"],\"prerequisites\":[],\"inputs\":[\"description\"],\"outputs\":[\"description\"]}]}}. One to four tasks. All tasks required. No commands, grants, model choices, or changed limits. Order overlapping writes with dependencies. Independent branches still execute sequentially. Source scope is this frozen repository; no symlink scopes. One planner only; shared goal maximum ".to_owned();
    if let Some(goal) = &run.phase3 {
        text.push_str(decimal_of(goal.max_invocations as u64).as_str());
        text.push_str(" supervised calls.\nOriginal goal (verbatim):\n");
        text.push_str(run.task.as_str());
        text.push_str("\nApproved check catalog: ");
        text.push_str(checks);
        text.push_str("\nOwner risk/verification policy: ");
        text.push_str(policy);
        text.push_str("\nExplicit resource constraints: harness=");
        text.push_str(show(&goal.fixed_harness).as_str());
        text.push_str(", model=");
        text.push_str(show(&goal.fixed_model).as_str());
        text.push_str(", effort=");
        text.push_str(show(&goal.fixed_effort).as_str());
        text.push_str(".\n");
    }
    text
}

/// The last attempt below `n` on a task.
pub open spec fn last_attempt_on(attempts: Seq<AttemptRecord>, id: Seq<char>, n: int) -> Option<int>
    decreases n,
{
    if n <= 0 || n > attempts.len() {
        None
    } else if optional_view(attempts[n - 1].detail.task_id) == Some(id) {
        Some(n - 1)
    } else {
        last_attempt_on(attempts, id, n - 1)
    }
}

/// The last attempt on a task, if there was one.
pub fn previous_attempt(run: &RunRecord, id: &str) -> (r: Option<usize>)
    ensures
        match r {
            Some(i) => last_attempt_on(run.attempts@, id@, run.attempts@.len() as int) == Some(i as int)
                && i < run.attempts@.len(),
            None => last_attempt_on(run.attempts@, id@, run.attempts@.len() as int) is None,
        },
{
    let mut n: usize = run.attempts.len();
    while n > 0
        invariant
            n <= run.attempts@.len(),
            last_attempt_on(run.attempts@, id@, run.attempts@.len() as int) == last_attempt_on(
                run.attempts@,
                id@,
                n as int,
            ),
        decreases n,
    {
        if same_optional(&run.attempts[n - 1].detail.task_id, Some(id)) {
            return Some(n - 1);
        }
        n -= 1;
    }
    None
}

/// The most bytes of an earlier contribution that a prompt quotes.
pub const MAX_CONTRIBUTION: usize = 8192;

/// The first bytes of an earlier contribution.
pub open spec fn quoted_contribution(diff: Seq<u8>) -> Seq<u8> {
    diff.take(
        if diff.len() < MAX_CONTRIBUTION {
            diff.len() as int
        } else {
            MAX_CONTRIBUTION as int
        },
    )
}

/// What an attempt on a task is told of the one before it. `known` is the diagnostics of that attempt,
/// `diff` its contribution where it left one.
pub open spec fn previous_text(known: Seq<char>, continuation: bool, diff: Option<Seq<u8>>) -> Seq<char> {
    replaced(known, "same original baseline"@, "task's recorded immutable input"@) + (
    if continuation {
        "\nCheckpoint changes are retained in the previous diff but are not copied over the new prerequisite. Reconcile the requested task against this new input explicitly.\n"@
    } else {
        Seq::empty()
    }) + (match diff {
        Some(bytes) => "\nBounded previous contribution (may be truncated):\n"@ + lossy_text(
            quoted_contribution(bytes),
        ),
        None => Seq::empty(),
    })
}

/// What an attempt on a task is asked to do.
pub open spec fn task_text(
    goal: Seq<char>,
    contract: Seq<char>,
    consumed: Seq<char>,
    input: Seq<char>,
    previous: Seq<char>,
    answer: Option<Seq<char>>,
) -> Seq<char> {
    "Implement only this validated task. Original goal (verbatim):\n"@ + goal + "\nTask contract: "@
        + contract + "\nRequired checked artifacts: "@ + consumed + "\nInput snapshot: "@ + input
        + ". Incidental prior contributions are context, not declared dependencies.\nNo new tasks, replanning, funding or permission changes. If essential clarification is needed emit final {\"dispatch_checkpoint\":{\"version\":1,\"question\":\"...\",\"choices\":[],\"category\":\"factual\"}}. For a missing existing task or reasoning assistance emit final {\"dispatch_dependency\":{\"version\":1,\"plan_revision\":\"identity below\",\"task_id\":\"identity below\",\"attempt_id\":\"identity below\",\"generation\":1,\"prerequisite\":\"existing task ID or null\",\"assistance\":null}}. Exactly one of prerequisite/assistance; assistance is a bounded reasoning request. Both consume the goal's one shared continuation slot. Otherwise finish normally.\n"@
        + previous + (match answer {
        Some(text) => "\nAuthorized answer: "@ + text + "\n"@,
        None => Seq::empty(),
    })
}

/// Tells an attempt on a task of the one before it.
pub fn previous_contribution(known: &str, continuation: bool, diff: Option<&Vec<u8>>) -> (r: String)
    ensures
        r@ == previous_text(
            known@,
            continuation,
            match diff {
                Some(bytes) => Some(bytes@),
                None => None,
            },
        ),
{
    proof {
        reveal_strlit("same original baseline");
    }
    let mut text = replace_text(known, "same original baseline", "task's recorded immutable input");
    if continuation {
        text.push_str(
            "\nCheckpoint changes are retained in the previous diff but are not copied over the new prerequisite. Reconcile the requested task against this new input explicitly.\n",
        );
    }
    if let Some(diff) = diff {
        let n = if diff.len() < MAX_CONTRIBUTION {
            diff.len()
        } else {
            MAX_CONTRIBUTION
        };
        let bytes = piece(diff, 0, n);
        assert(bytes@ =~= quoted_contribution(diff@));
        text.push_str("\nBounded previous contribution (may be truncated):\n");
        let quoted = lossy(&bytes);
        text.push_str(quoted.as_str());
    }
    assert(text@ =~= previous_text(
        known@,
        continuation,
        match diff {
            Some(bytes) => Some(bytes@),
            None => None,
        },
    ));
    text
}

/// What an attempt on a task is asked to do. `contract` and `consumed` are the task and the artifacts it
/// builds on as JSON, `previous` what is known of an earlier attempt, `answer` an authorized answer.
pub fn task_prompt(
    goal: &str,
    contract: &str,
    consumed: &str,
    input: &str,
    previous: &str,
    answer: Option<&str>,
) -> (r: String)
    ensures
        r@ == task_text(goal@, contract@, consumed@, input@, previous@, optional_str(answer)),
{
    let mut text = "Implement only this validated task. Original goal (verbatim):\n".to_owned();
    text.push_str(goal);
    text.push_str("\nTask contract: ");
    text.push_str(contract);
    text.push_str("\nRequired checked artifacts: ");
    text.push_str(consumed);
    text.push_str("\nInput snapshot: ");
    text.push_str(input);
    text.push_str(
        ". Incidental prior contributions are context, not declared dependencies.\nNo new tasks, replanning, funding or permission changes. If essential clarification is needed emit final {\"dispatch_checkpoint\":{\"version\":1,\"question\":\"...\",\"choices\":[],\"category\":\"factual\"}}. For a missing existing task or reasoning assistance emit final {\"dispatch_dependency\":{\"version\":1,\"plan_revision\":\"identity below\",\"task_id\":\"identity below\",\"attempt_id\":\"identity below\",\"generation\":1,\"prerequisite\":\"existing task ID or null\",\"assistance\":null}}. Exactly one of prerequisite/assistance; assistance is a bounded reasoning request. Both consume the goal's one shared continuation slot. Otherwise finish normally.\n",
    );
    text.push_str(previous);
    if let Some(answer) = answer {
        text.push_str("\nAuthorized answer: ");
        text.push_str(answer);
        text.push_str("\n");
    }
    assert(text@ =~= task_text(
        goal@,
        contract@,
        consumed@,
        input@,
        previous@,
        optional_str(answer),
    ));
    text
}

/// Whether a file lies in the write scope of a task.
pub open spec fn writable(spec: TaskSpec, file: Seq<char>) -> bool {
    exists|i: int| 0 <= i < spec.write@.len() && within((#[trigger] spec.write@[i])@, file)
}

/// Why the files from `from` on were not a task's to change, if one was not.
pub open spec fn writes_error(
    spec: TaskSpec,
    changed: Seq<String>,
    input: TextMap<PathKind>,
    workspace: TextMap<PathKind>,
    from: int,
) -> Option<Seq<char>>
    decreases changed.len() - from,
{
    if from < 0 || from >= changed.len() {
        None
    } else if !writable(spec, changed[from]@) {
        Some("out-of-scope write: "@ + changed[from]@)
    } else if path_error(input, changed[from]@) is Some {
        path_error(input, changed[from]@)
    } else if path_error(workspace, changed[from]@) is Some {
        path_error(workspace, changed[from]@)
    } else {
        writes_error(spec, changed, input, workspace, from + 1)
    }
}

fn may_write(spec: &TaskSpec, file: &str) -> (r: bool)
    ensures
        r == writable(*spec, file@),
{
    let mut i: usize = 0;
    while i < spec.write.len()
        invariant
            i <= spec.write.len(),
            forall|k: int| 0 <= k < i ==> !within((#[trigger] spec.write@[k])@, file@),
        decreases spec.write.len() - i,
    {
        if contains(spec.write[i].as_str(), file) {
            assert(within(spec.write@[i as int]@, file@));
            return true;
        }
        i += 1;
    }
    false
}

/// Refuses a contribution that changed a file outside the task's write scope, or by an unsafe path.
/// `input` and `workspace` say what stands at the paths before and after.
pub fn validate_writes(
    spec: &TaskSpec,
    changed: &Vec<String>,
    input: &TextMap<PathKind>,
    workspace: &TextMap<PathKind>,
) -> (r: Result<(), String>)
    ensures
        match writes_error(*spec, changed@, *input, *workspace, 0) {
            Some(message) => r matches Err(e) && e@ == message,
            None => r is Ok,
        },
{
    let mut i: usize = 0;
    while i < changed.len()
        invariant
            i <= changed.len(),
            writes_error(*spec, changed@, *input, *workspace, 0) == writes_error(
                *spec,
                changed@,
                *input,
                *workspace,
                i as int,
            ),
        decreases changed.len() - i,
    {
        if !may_write(spec, changed[i].as_str()) {
            let mut message = "out-of-scope write: ".to_owned();
            message.push_str(changed[i].as_str());
            return Err(message);
        }
        if let Err(e) = path(input, changed[i].as_str()) {
            return Err(e);
        }
        if let Err(e) = path(workspace, changed[i].as_str()) {
            return Err(e);
        }
        i += 1;
    }
    Ok(())
}

/// A contribution that is not refused changed nothing outside the task's write scope.
pub proof fn accepted_writes_are_in_scope(
    spec: TaskSpec,
    changed: Seq<String>,
    input: TextMap<PathKind>,
    workspace: TextMap<PathKind>,
    from: int,
    i: int,
)
    requires
        writes_error(spec, changed, input, workspace, from) is None,
        0 <= from <= i < changed.len(),
    ensures
        writable(spec, changed[i]@),
    decreases changed.len() - from,
{
    if from < i {
        accepted_writes_are_in_scope(spec, changed, input, workspace, from + 1, i);
    }
}

/// Whether a plan says what each of its tasks is.
pub open spec fn specified(p: Planning) -> bool {
    p.plan matches Some(plan) && forall|i: int|
        0 <= i < p.tasks@.len() ==> task_with(plan.tasks@, (#[trigger] p.tasks@[i]).id@) is Some
}

/// Whether one task writes something that another reads.
pub open spec fn feeds(producer: TaskSpec, consumer: TaskSpec) -> bool {
    exists|w: int, r: int|
        0 <= w < producer.write@.len() && 0 <= r < consumer.read@.len() && related(
            (#[trigger] producer.write@[w])@,
            (#[trigger] consumer.read@[r])@,
        )
}

/// Whether one of two paths lies at or below the other.
pub open spec fn related(a: Seq<char>, b: Seq<char>) -> bool {
    within(b, a) || within(a, b)
}

/// Whether a task that depends on `id` was already integrated.
pub open spec fn downstream_done(p: Planning, id: Seq<char>) -> bool {
    exists|i: int|
        0 <= i < p.tasks@.len() && (#[trigger] p.tasks@[i]).state == TaskState::Integrated && depends_on(
            p.plan->0.tasks@,
            p.tasks@[i].id@,
            id,
        )
}

/// Why a task may not come to depend on another, if it may not.
pub open spec fn prerequisite_error(p: Planning, id: Seq<char>, target: Seq<char>) -> Option<Seq<char>> {
    if target == id {
        Some("self dependency refused"@)
    } else {
        match task_at(p.tasks@, target, 0) {
            None => Some("unknown prerequisite; new tasks are forbidden"@),
            Some(k) => if p.tasks@[k].state != TaskState::Pending && p.tasks@[k].state
                != TaskState::Integrated {
                Some("prerequisite is failed, cancelled, or itself awaiting continuation"@)
            } else if depends_on(p.plan->0.tasks@, target, id) {
                Some("dependency would create a cycle"@)
            } else if !feeds(
                task_with(p.plan->0.tasks@, target)->0,
                task_with(p.plan->0.tasks@, id)->0,
            ) {
                Some("dependency is outside declared read scope"@)
            } else if downstream_done(p, id) {
                Some("completed branch mutation refused"@)
            } else {
                None
            },
        }
    }
}

/// Why a dependency report is refused, if it is.
pub open spec fn dependency_error(run: RunRecord, index: int, r: DependencyReport) -> Option<Seq<char>> {
    let p = planning_of(run)->0;
    let a = run.attempts@.last();
    let id = p.tasks@[index].id@;
    if r.version != 1 || r.plan_revision@ != p.revision@ || r.task_id@ != id || r.attempt_id@ != a.id@
        || r.generation != a.generation {
        Some("stale or cross-goal dependency report"@)
    } else if r.prerequisite is Some == r.assistance is Some {
        Some("one dependency or assistance request required"@)
    } else {
        match r.prerequisite {
            Some(target) => prerequisite_error(p, id, target@),
            None => if run.phase3->0.no_retry {
                Some("automatic reasoning assistance is disabled by --no-retry"@)
            } else if is_blank(r.assistance->0@) || byte_len(r.assistance->0@) > 2048 {
                Some("invalid assistance request"@)
            } else {
                None
            },
        }
    }
}

fn is_fed(producer: &TaskSpec, consumer: &TaskSpec) -> (r: bool)
    ensures
        r == feeds(*producer, *consumer),
{
    let mut w: usize = 0;
    while w < producer.write.len()
        invariant
            w <= producer.write.len(),
            forall|i: int, j: int|
                0 <= i < w && 0 <= j < consumer.read@.len() ==> !related(
                    (#[trigger] producer.write@[i])@,
                    (#[trigger] consumer.read@[j])@,
                ),
        decreases producer.write.len() - w,
    {
        let mut k: usize = 0;
        while k < consumer.read.len()
            invariant
                w < producer.write.len(),
                k <= consumer.read.len(),
                forall|j: int|
                    0 <= j < k ==> !related(
                        producer.write@[w as int]@,
                        (#[trigger] consumer.read@[j])@,
                    ),
            decreases consumer.read.len() - k,
        {
            let a = producer.write[w].as_str();
            let b = consumer.read[k].as_str();
            if contains(b, a) || contains(a, b) {
                assert(related(producer.write@[w as int]@, consumer.read@[k as int]@));
                return true;
            }
            k += 1;
        }
        w += 1;
    }
    false
}

fn is_downstream_done(p: &Planning, plan: &Plan, id: &str) -> (r: bool)
    requires
        p.plan == Some(*plan),
    ensures
        r == downstream_done(*p, id@),
{
    let mut i: usize = 0;
    while i < p.tasks.len()
        invariant
            i <= p.tasks.len(),
            p.plan == Some(*plan),
            forall|k: int|
                0 <= k < i ==> !((#[trigger] p.tasks@[k]).state == TaskState::Integrated && depends_on(
                    plan.tasks@,
                    p.tasks@[k].id@,
                    id@,
                )),
        decreases p.tasks.len() - i,
    {
        if p.tasks[i].state == TaskState::Integrated && depends(plan, p.tasks[i].id.as_str(), id) {
            assert(p.tasks@[i as int].state == TaskState::Integrated);
            return true;
        }
        i += 1;
    }
    false
}

proof fn found_task_is_listed(tasks: Seq<Task>, id: Seq<char>, from: int)
    ensures
        task_at(tasks, id, from) matches Some(k) ==> 0 <= k < tasks.len() && tasks[k].id@ == id,
    decreases tasks.len() - from,
{
    if 0 <= from < tasks.len() {
        found_task_is_listed(tasks, id, from + 1);
    }
}

fn check_prerequisite(p: &Planning, id: &str, target: &str) -> (r: Result<(), String>)
    requires
        specified(*p),
        task_with(p.plan->0.tasks@, id@) is Some,
    ensures
        match prerequisite_error(*p, id@, target@) {
            Some(message) => r matches Err(e) && e@ == message,
            None => r is Ok,
        },
{
    if same(target, id) {
        return Err("self dependency refused".to_owned());
    }
    let k = match find_in_tasks(&p.tasks, target) {
        None => {
            return Err("unknown prerequisite; new tasks are forbidden".to_owned());
        },
        Some(k) => k,
    };
    proof {
        found_task_is_listed(p.tasks@, target@, 0);
    }
    if p.tasks[k].state != TaskState::Pending && p.tasks[k].state != TaskState::Integrated {
        return Err("prerequisite is failed, cancelled, or itself awaiting continuation".to_owned());
    }
    let plan = match &p.plan {
        None => {
            return Err(String::new());
        },
        Some(plan) => plan,
    };
    if depends(plan, target, id) {
        return Err("dependency would create a cycle".to_owned());
    }
    let fed = match (find_task(&plan.tasks, target), find_task(&plan.tasks, id)) {
        (Some(a), Some(b)) => is_fed(&plan.tasks[a], &plan.tasks[b]),
        _ => false,
    };
    if !fed {
        return Err("dependency is outside declared read scope".to_owned());
    }
    if is_downstream_done(p, plan, id) {
        return Err("completed branch mutation refused".to_owned());
    }
    Ok(())
}

/// The task that reported a dependency, after the report was accepted.
pub open spec fn dependent_task(new: Task, was: Task, r: DependencyReport) -> bool {
    match r.prerequisite {
        Some(target) => new == (Task { pending_prerequisite: Some(target), ..was }),
        None => new == (Task { extra_reason: new.extra_reason, ..was }) && optional_view(
            new.extra_reason,
        ) == Some("reasoning_assistance"@),
    }
}

/// Whether `new` is the run once a task of it waits for what its agent reported.
pub open spec fn has_dependency(
    new: RunRecord,
    run: RunRecord,
    index: int,
    r: DependencyReport,
) -> bool {
    let was = planning_of(run)->0;
    let p = planning_of(new)->0;
    &&& new == with_planning(run, p)
    &&& p == (Planning { tasks: p.tasks, ..was })
    &&& p.tasks@ == was.tasks@.update(index, p.tasks@[index])
    &&& dependent_task(p.tasks@[index], was.tasks@[index], r)
}

/// Takes in the report of the last attempt that its task needs an existing task first, or assistance.
/// A report never adds tasks, cycles or reach, and never changes a completed branch.
pub fn dependency(run: &mut RunRecord, index: usize, report: DependencyReport) -> (r: Result<
    (),
    String,
>)
    requires
        planning_of(*old(run)) matches Some(p) && specified(p) && index < p.tasks@.len(),
        old(run).attempts@.len() > 0,
    ensures
        match dependency_error(*old(run), index as int, report) {
            Some(message) => r matches Err(e) && e@ == message && *final(run) == *old(run),
            None => r is Ok && has_dependency(*final(run), *old(run), index as int, report),
        },
{
    let n = run.attempts.len();
    let no_retry = match &run.phase3 {
        Some(policy) => policy.no_retry,
        None => true,
    };
    match planning(run) {
        None => {
            return Err(String::new());
        },
        Some(p) => {
            let a = &run.attempts[n - 1];
            let id = p.tasks[index].id.as_str();
            if report.version != 1 || !same(report.plan_revision.as_str(), p.revision.as_str())
                || !same(report.task_id.as_str(), id) || !same(
                report.attempt_id.as_str(),
                a.id.as_str(),
            ) || report.generation != a.generation {
                return Err("stale or cross-goal dependency report".to_owned());
            }
            match (&report.prerequisite, &report.assistance) {
                (Some(target), None) => {
                    if let Err(e) = check_prerequisite(p, id, target.as_str()) {
                        return Err(e);
                    }
                },
                (None, Some(assistance)) => {
                    if no_retry {
                        return Err(
                            "automatic reasoning assistance is disabled by --no-retry".to_owned(),
                        );
                    }
                    if blank(assistance.as_str()) || bytes_in(assistance.as_str()) > 2048 {
                        return Err("invalid assistance request".to_owned());
                    }
                },
                _ => {
                    return Err("one dependency or assistance request required".to_owned());
                },
            }
        },
    }
    if let Some(policy) = &mut run.phase3 {
        if let Some(p) = &mut policy.planning {
            let task = &mut p.tasks[index];
            match report.prerequisite {
                Some(target) => {
                    task.pending_prerequisite = Some(target);
                },
                None => {
                    task.extra_reason = Some("reasoning_assistance".to_owned());
                },
            }
        }
    }
    assert(planning_of(*run)->0.tasks@ =~= planning_of(*old(run))->0.tasks@.update(
        index as int,
        planning_of(*run)->0.tasks@[index as int],
    ));
    Ok(())
}

/// An accepted dependency closes no cycle: what a task comes to wait for does not depend on it, and is
/// not the task itself.
pub proof fn accepted_dependency_closes_no_cycle(run: RunRecord, index: int, r: DependencyReport)
    requires
        dependency_error(run, index, r) is None,
        r.prerequisite is Some,
    ensures
        ({
            let p = planning_of(run)->0;
            &&& r.prerequisite->0@ != p.tasks@[index].id@
            &&& !depends_on(p.plan->0.tasks@, r.prerequisite->0@, p.tasks@[index].id@)
        }),
{
}

/// A report adds no task: what it waits for is one of the plan's tasks, pending or integrated.
pub proof fn dependencies_add_no_task(run: RunRecord, index: int, r: DependencyReport)
    requires
        dependency_error(run, index, r) is None,
        r.prerequisite is Some,
    ensures
        exists|k: int|
            0 <= k < planning_of(run)->0.tasks@.len() && (
            #[trigger] planning_of(run)->0.tasks@[k]).id@ == r.prerequisite->0@,
{
    found_task_is_listed(planning_of(run)->0.tasks@, r.prerequisite->0@, 0);
}

/// Whether `new` is the run with one of its tasks put aside until it can be continued.
pub open spec fn is_put_aside(new: RunRecord, run: RunRecord, index: int) -> bool {
    let was = planning_of(run)->0;
    let p = planning_of(new)->0;
    &&& new == with_planning(run, p)
    &&& p == (Planning { tasks: p.tasks, ..was })
    &&& p.tasks@ == was.tasks@.update(
        index,
        Task { state: TaskState::Waiting, ..was.tasks@[index] },
    )
}

/// Puts a task that stopped on a question or a dependency aside, where the goal's extra invocation can
/// continue it.
pub fn pause_task(run: &mut RunRecord, index: usize, now: i64) -> (r: Result<(), String>)
    requires
        planning_of(*old(run)) matches Some(p) && index < p.tasks@.len(),
    ensures
        if !extra_available(*old(run), now) {
            &&& r matches Err(e) && e@
                == "checkpoint cannot continue: goal's shared extra is unavailable"@
            &&& *final(run) == *old(run)
        } else {
            r is Ok && is_put_aside(*final(run), *old(run), index as int)
        },
{
    if !has_extra(run, now) {
        return Err("checkpoint cannot continue: goal's shared extra is unavailable".to_owned());
    }
    if let Some(policy) = &mut run.phase3 {
        if let Some(p) = &mut policy.planning {
            p.tasks[index].state = TaskState::Waiting;
        }
    }
    assert(planning_of(*run)->0.tasks@ =~= planning_of(*old(run))->0.tasks@.update(
        index as int,
        Task { state: TaskState::Waiting, ..planning_of(*old(run))->0.tasks@[index as int] },
    ));
    Ok(())
}

/// What the checks of a child say went wrong; `before` are the same checks on its input. Checks that did
/// not pass always say something.
pub fn child_failure(before: &Vec<CheckResult>, checks: &Vec<CheckResult>) -> (r: FailureKind)
    ensures
        r == (match verdict(before@, checks@) {
            Some(failure) => failure,
            None => FailureKind::VerificationUnknown,
        }),
{
    match check_verdict(before, checks) {
        Some(failure) => failure,
        None => FailureKind::VerificationUnknown,
    }
}

/// Whether a failure is repaired with the shared extra invocation.
pub open spec fn is_repairable(run: RunRecord, failure: FailureKind, now: i64) -> bool {
    failure == FailureKind::TargetVerification && !run.phase3->0.no_retry && extra_available(run, now)
}

/// Whether a failure is repaired with the shared extra invocation: only a failed target check is.
pub fn repairable(run: &RunRecord, failure: FailureKind, now: i64) -> (r: bool)
    requires
        planning_of(*run) is Some,
    ensures
        r == is_repairable(*run, failure, now),
{
    let no_retry = match &run.phase3 {
        Some(policy) => policy.no_retry,
        None => true,
    };
    failure == FailureKind::TargetVerification && !no_retry && has_extra(run, now)
}

/// Whether `new` is the run with one of its tasks pending again, for a repair.
pub open spec fn is_retried(new: RunRecord, run: RunRecord, index: int) -> bool {
    let was = planning_of(run)->0;
    let p = planning_of(new)->0;
    let task = p.tasks@[index];
    &&& new == with_planning(run, p)
    &&& p == (Planning { tasks: p.tasks, ..was })
    &&& p.tasks@ == was.tasks@.update(index, task)
    &&& task == (Task {
        state: TaskState::Pending,
        extra_reason: task.extra_reason,
        ..was.tasks@[index]
    })
    &&& optional_view(task.extra_reason) == Some("target_verification_failure"@)
}

/// Makes a task whose checks failed pending again, for a repair.
pub fn retry_task(run: &mut RunRecord, index: usize)
    requires
        planning_of(*old(run)) matches Some(p) && index < p.tasks@.len(),
    ensures
        is_retried(*final(run), *old(run), index as int),
{
    if let Some(policy) = &mut run.phase3 {
        if let Some(p) = &mut policy.planning {
            let task = &mut p.tasks[index];
            task.state = TaskState::Pending;
            task.extra_reason = Some("target_verification_failure".to_owned());
        }
    }
    assert(planning_of(*run)->0.tasks@ =~= planning_of(*old(run))->0.tasks@.update(
        index as int,
        planning_of(*run)->0.tasks@[index as int],
    ));
}

/// Records that a task was integrated, and its artifact.
pub fn complete_task(run: &mut RunRecord, index: usize, artifact: &str)
    requires
        planning_of(*old(run)) matches Some(p) && index < p.tasks@.len(),
    ensures
        ({
            let was = planning_of(*old(run))->0;
            let p = planning_of(*final(run))->0;
            let task = p.tasks@[index as int];
            &&& *final(run) == with_planning(*old(run), p)
            &&& p == (Planning { tasks: p.tasks, ..was })
            &&& p.tasks@ == was.tasks@.update(index as int, task)
            &&& task == (Task {
                state: TaskState::Integrated,
                artifact: task.artifact,
                ..was.tasks@[index as int]
            })
            &&& optional_view(task.artifact) == Some(artifact@)
        }),
{
    if let Some(policy) = &mut run.phase3 {
        if let Some(p) = &mut policy.planning {
            let task = &mut p.tasks[index];
            task.artifact = Some(artifact.to_owned());
            task.state = TaskState::Integrated;
        }
    }
    assert(planning_of(*run)->0.tasks@ =~= planning_of(*old(run))->0.tasks@.update(
        index as int,
        planning_of(*run)->0.tasks@[index as int],
    ));
}

/// The changed files that lie in the verification paths, in order.
pub open spec fn protected(changed: Seq<String>, paths: Seq<String>) -> Seq<Seq<char>>
    decreases changed.len(),
{
    if changed.len() == 0 {
        Seq::empty()
    } else {
        let earlier = protected(changed.drop_last(), paths);
        if crate::planning::covered(paths, changed.last()@) {
            earlier.push(changed.last()@)
        } else {
            earlier
        }
    }
}

fn find_protected(changed: &Vec<String>, paths: &Vec<String>) -> (r: Vec<String>)
    ensures
        texts(r@) == protected(changed@, paths@),
{
    let mut out: Vec<String> = Vec::new();
    let mut i: usize = 0;
    assert(texts(out@) =~= protected(changed@.take(0), paths@));
    while i < changed.len()
        invariant
            i <= changed.len(),
            texts(out@) == protected(changed@.take(i as int), paths@),
        decreases changed.len() - i,
    {
        assert(changed@.take(i as int + 1).drop_last() =~= changed@.take(i as int));
        let mut found = false;
        let mut j: usize = 0;
        while j < paths.len()
            invariant
                i < changed.len(),
                j <= paths.len(),
                found == (exists|k: int|
                    0 <= k < j && within((#[trigger] paths@[k])@, changed@[i as int]@)),
            decreases paths.len() - j,
        {
            if contains(paths[j].as_str(), changed[i].as_str()) {
                found = true;
                assert(within(paths@[j as int]@, changed@[i as int]@));
            }
            j += 1;
        }
        if found {
            let ghost earlier = out@;
            out.push(changed[i].clone());
            assert(texts(out@) =~= texts(earlier).push(changed@[i as int]@));
        }
        i += 1;
    }
    assert(changed@.take(changed@.len() as int) =~= changed@);
    out
}

/// A contribution that is to be integrated, with what was made of it.
#[derive(Debug, Clone, PartialEq, Eq)]
pub struct Contribution {
    pub artifact_id: String,
    pub snapshot_id: String,
    /// The task it belongs to; none for a repair of the whole.
    pub task_id: Option<String>,
    /// Where its patch stands, and what it holds.
    pub patch: String,
    pub patch_bytes: Vec<u8>,
    pub manifest: String,
    pub checks: Vec<CheckResult>,
    pub changed: Vec<String>,
    /// The fingerprint of the tree that the attempt left.
    pub published: String,
    /// Where the integrated tree stands, and its fingerprint.
    pub integrated_path: String,
    pub integrated: String,
}

/// Why a contribution is not integrated, if it is not.
pub open spec fn integration_error(
    p: Planning,
    input: Snapshot,
    fingerprint: Seq<char>,
    c: Contribution,
) -> Option<Seq<char>> {
    if p.snapshots@.last().id@ != input.id@ {
        Some("integration input revision changed; stale contribution refused"@)
    } else if fingerprint != input.fingerprint@ {
        Some("immutable snapshot hash mismatch: "@ + input.id@)
    } else if c.integrated@ != c.published@ {
        Some("contribution cannot faithfully represent output tree; integration refused"@)
    } else {
        None
    }
}

/// Whether a plan gained a snapshot and an artifact by a contribution.
pub open spec fn integrates(
    p: Planning,
    was: Planning,
    input: Snapshot,
    attempt: Seq<char>,
    c: Contribution,
) -> bool {
    let s = p.snapshots@.last();
    let a = p.artifacts@.last();
    &&& p == (Planning { snapshots: p.snapshots, artifacts: p.artifacts, ..was })
    &&& p.snapshots@.len() == was.snapshots@.len() + 1
    &&& p.snapshots@.drop_last() == was.snapshots@
    &&& p.artifacts@.len() == was.artifacts@.len() + 1
    &&& p.artifacts@.drop_last() == was.artifacts@
    &&& s.id == c.snapshot_id
    &&& s.path == c.integrated_path
    &&& s.fingerprint == c.integrated
    &&& s.parent == Some(input.id)
    &&& s.contribution == Some(c.artifact_id)
    &&& a.id == c.artifact_id
    &&& a.task_id == c.task_id
    &&& a.attempt_id@ == attempt
    &&& a.input == input.id
    &&& a.output == c.snapshot_id
    &&& a.patch == c.patch
    &&& a.patch_sha256@ == hash_text(c.patch_bytes@)
    &&& a.manifest == c.manifest
    &&& a.checks == c.checks
    &&& texts(a.verification_changes@) == protected(c.changed@, was.owner_policy.verification_paths@)
}

/// Integrates a contribution on the latest snapshot: the integrated tree becomes the latest one, and the
/// contribution an artifact. `fingerprint` is that of the input now.
pub fn integrate(
    run: &mut RunRecord,
    input: &Snapshot,
    fingerprint: &str,
    contribution: Contribution,
) -> (r: Result<(), String>)
    requires
        planning_of(*old(run)) matches Some(p) && p.snapshots@.len() > 0,
        old(run).attempts@.len() > 0,
    ensures
        ({
            let was = planning_of(*old(run))->0;
            let begun = RunRecord {
                outcome: RunOutcome { phase: RunPhase::Integrating, ..old(run).outcome },
                ..*old(run)
            };
            match integration_error(was, *input, fingerprint@, contribution) {
                Some(message) => r matches Err(e) && e@ == message && *final(run) == begun,
                None => {
                    let p = planning_of(*final(run))->0;
                    &&& r is Ok
                    &&& *final(run) == with_planning(begun, p)
                    &&& integrates(p, was, *input, old(run).attempts@.last().id@, contribution)
                },
            }
        }),
{
    run.outcome.phase = RunPhase::Integrating;
    let ghost begun = *run;
    let n = run.attempts.len();
    let changes = match planning(run) {
        None => {
            return Err(String::new());
        },
        Some(p) => {
            let m = p.snapshots.len();
            if !same(p.snapshots[m - 1].id.as_str(), input.id.as_str()) {
                return Err(
                    "integration input revision changed; stale contribution refused".to_owned(),
                );
            }
            if let Err(e) = crate::planning::verify_snapshot(input, fingerprint) {
                return Err(e);
            }
            if !same(contribution.integrated.as_str(), contribution.published.as_str()) {
                return Err(
                    "contribution cannot faithfully represent output tree; integration refused".to_owned(),
                );
            }
            find_protected(&contribution.changed, &p.owner_policy.verification_paths)
        },
    };
    let snapshot = Snapshot {
        id: contribution.snapshot_id.clone(),
        path: contribution.integrated_path,
        fingerprint: contribution.integrated,
        parent: Some(input.id.clone()),
        contribution: Some(contribution.artifact_id.clone()),
    };
    let artifact = Artifact {
        id: contribution.artifact_id,
        task_id: contribution.task_id,
        attempt_id: run.attempts[n - 1].id.clone(),
        input: input.id.clone(),
        output: contribution.snapshot_id,
        patch: contribution.patch,
        patch_sha256: file_hash(contribution.patch_bytes.as_slice()),
        manifest: contribution.manifest,
        checks: contribution.checks,
        verification_changes: changes,
    };
    if let Some(policy) = &mut run.phase3 {
        if let Some(p) = &mut policy.planning {
            p.snapshots.push(snapshot);
            p.artifacts.push(artifact);
        }
    }
    proof {
        let was = planning_of(*old(run))->0;
        let p = planning_of(*run)->0;
        assert(p.snapshots@.drop_last() =~= was.snapshots@);
        assert(p.artifacts@.drop_last() =~= was.artifacts@);
    }
    Ok(())
}

/// Integration never drops a snapshot or an artifact: the lineage of a goal only grows.
pub proof fn lineage_only_grows(
    p: Planning,
    was: Planning,
    input: Snapshot,
    attempt: Seq<char>,
    c: Contribution,
    i: int,
)
    requires
        integrates(p, was, input, attempt, c),
    ensures
        0 <= i < was.snapshots@.len() ==> p.snapshots@[i] == was.snapshots@[i],
        0 <= i < was.artifacts@.len() ==> p.artifacts@[i] == was.artifacts@[i],
{
    if 0 <= i < was.snapshots@.len() {
        assert(p.snapshots@.drop_last()[i] == was.snapshots@[i]);
    }
    if 0 <= i < was.artifacts@.len() {
        assert(p.artifacts@.drop_last()[i] == was.artifacts@[i]);
    }
}

/// The failure that root checks which did not pass amount to. `checks` are those of the delivery, and a
/// delivery without any contribution has none.
pub fn root_failure(run: &RunRecord, checks: &Vec<CheckResult>) -> (r: Result<FailureKind, String>)
    ensures
        if run.attempts@.len() == 0 || run.attempts@.last().detail.result is None {
            r matches Err(e) && e@ == "root verification lacks a contribution"@
        } else {
            r == Ok::<FailureKind, String>(
                match verdict(run.baseline_checks@, checks@) {
                    Some(failure) => failure,
                    None => FailureKind::VerificationUnknown,
                },
            )
        },
{
    let n = run.attempts.len();
    if n == 0 || run.attempts[n - 1].detail.result.is_none() {
        return Err("root verification lacks a contribution".to_owned());
    }
    Ok(child_failure(&run.baseline_checks, checks))
}

/// Records that root checks did not pass, where nothing can repair them.
pub fn record_root_failure(run: &mut RunRecord, failure: FailureKind)
    ensures
        *final(run) == (RunRecord {
            outcome: RunOutcome {
                verification: (if failure == FailureKind::TargetVerification {
                    VerificationState::Failed
                } else {
                    VerificationState::Inconclusive
                }),
                ..old(run).outcome
            },
            ..*old(run)
        }),
{
    run.outcome.verification = if failure == FailureKind::TargetVerification {
        VerificationState::Failed
    } else {
        VerificationState::Inconclusive
    };
}

/// The paths that tasks read or write, in order.
pub open spec fn all_reads(tasks: Seq<TaskSpec>) -> Seq<Seq<char>>
    decreases tasks.len(),
{
    if tasks.len() == 0 {
        Seq::empty()
    } else {
        all_reads(tasks.drop_last()) + texts(tasks.last().read@)
    }
}

/// The paths that tasks write, in order.
pub open spec fn all_writes(tasks: Seq<TaskSpec>) -> Seq<Seq<char>>
    decreases tasks.len(),
{
    if tasks.len() == 0 {
        Seq::empty()
    } else {
        all_writes(tasks.drop_last()) + texts(tasks.last().write@)
    }
}

fn push_texts(out: &mut Vec<String>, more: &Vec<String>)
    ensures
        texts(final(out)@) == texts(old(out)@) + texts(more@),
{
    let mut i: usize = 0;
    assert(texts(out@) =~= texts(old(out)@) + texts(more@.take(0)));
    while i < more.len()
        invariant
            i <= more.len(),
            texts(out@) == texts(old(out)@) + texts(more@.take(i as int)),
        decreases more.len() - i,
    {
        let ghost earlier = out@;
        out.push(more[i].clone());
        assert(texts(out@) =~= texts(earlier).push(more@[i as int]@));
        assert(texts(more@.take(i as int + 1)) =~= texts(more@.take(i as int)).push(more@[i as int]@));
        assert(texts(out@) =~= texts(old(out)@) + texts(more@.take(i as int + 1)));
        i += 1;
    }
    assert(more@.take(more@.len() as int) =~= more@);
}

fn one(text: &str) -> (r: Vec<String>)
    ensures
        texts(r@) == seq![text@],
{
    let mut out: Vec<String> = Vec::new();
    out.push(text.to_owned());
    assert(texts(out@) =~= seq![text@]);
    out
}

/// The keys of a map, in order.
pub open spec fn keys_of(map: TextMap<String>) -> Seq<Seq<char>> {
    map.entries@.map_values(|e: (String, String)| e.0@)
}

/// The contract of the one repair that an integrated goal may have: everything its tasks could read and
/// write, and every approved check.
pub fn integration_task(run: &RunRecord, plan: &Plan, checks: &TextMap<String>, input: &str) -> (r:
    TaskSpec)
    ensures
        r.id@ == "integration"@,
        r.objective@ == "Repair the integrated goal against the original approved root checks"@,
        texts(r.read@) == all_reads(plan.tasks@),
        texts(r.write@) == all_writes(plan.tasks@),
        texts(r.acceptance@) == seq![run.task@],
        texts(r.checks@) == keys_of(*checks),
        r.prerequisites@.len() == 0,
        texts(r.inputs@) == seq![input@],
        texts(r.outputs@) == seq!["Repaired integrated contribution"@],
{
    let mut read: Vec<String> = Vec::new();
    let mut write: Vec<String> = Vec::new();
    let mut i: usize = 0;
    assert(texts(read@) =~= all_reads(plan.tasks@.take(0)));
    assert(texts(write@) =~= all_writes(plan.tasks@.take(0)));
    while i < plan.tasks.len()
        invariant
            i <= plan.tasks.len(),
            texts(read@) == all_reads(plan.tasks@.take(i as int)),
            texts(write@) == all_writes(plan.tasks@.take(i as int)),
        decreases plan.tasks.len() - i,
    {
        assert(plan.tasks@.take(i as int + 1).drop_last() =~= plan.tasks@.take(i as int));
        push_texts(&mut read, &plan.tasks[i].read);
        push_texts(&mut write, &plan.tasks[i].write);
        i += 1;
    }
    assert(plan.tasks@.take(plan.tasks@.len() as int) =~= plan.tasks@);
    let mut approved: Vec<String> = Vec::new();
    let mut k: usize = 0;
    while k < checks.entries.len()
        invariant
            k <= checks.entries.len(),
            approved@.len() == k,
            forall|j: int| 0 <= j < k ==> (#[trigger] approved@[j])@ == checks.entries@[j].0@,
        decreases checks.entries.len() - k,
    {
        approved.push(checks.entries[k].0.clone());
        k += 1;
    }
    assert(texts(approved@) =~= keys_of(*checks));
    TaskSpec {
        id: "integration".to_owned(),
        objective: "Repair the integrated goal against the original approved root checks".to_owned(),
        read,
        write,
        acceptance: one(run.task.as_str()),
        checks: approved,
        prerequisites: Vec::new(),
        inputs: one(input),
        outputs: one("Repaired integrated contribution"),
    }
}

/// What the repair of an integrated goal is asked to do.
pub fn repair_prompt(goal: &str, contract: &str, failed: &str) -> (r: String)
    ensures
        r@ == "One shared integration repair. Do not plan or add tasks. Original goal: "@ + goal@
            + "\nAllowed contract: "@ + contract@ + "\nRoot checks failed: "@ + failed@
            + "\nInput is the exact integrated snapshot; preserve prior contributions and original verification authority."@,
{
    let mut text =
        "One shared integration repair. Do not plan or add tasks. Original goal: ".to_owned();
    text.push_str(goal);
    text.push_str("\nAllowed contract: ");
    text.push_str(contract);
    text.push_str("\nRoot checks failed: ");
    text.push_str(failed);
    text.push_str(
        "\nInput is the exact integrated snapshot; preserve prior contributions and original verification authority.",
    );
    text
}

/// The last attempt below `n` that left a result.
pub open spec fn last_result(attempts: Seq<AttemptRecord>, n: int) -> Option<int>
    decreases n,
{
    if n <= 0 || n > attempts.len() {
        None
    } else if attempts[n - 1].detail.result is Some {
        Some(n - 1)
    } else {
        last_result(attempts, n - 1)
    }
}

/// How long the results of attempts took together.
pub open spec fn total_ms(attempts: Seq<AttemptRecord>) -> int
    decreases attempts.len(),
{
    if attempts.len() == 0 {
        0
    } else {
        total_ms(attempts.drop_last()) + (match attempts.last().detail.result {
            Some(c) => c.duration_ms as int,
            None => 0,
        })
    }
}

proof fn total_ms_grows(attempts: Seq<AttemptRecord>, n: int)
    requires
        0 <= n <= attempts.len(),
    ensures
        0 <= total_ms(attempts.take(n)) <= total_ms(attempts),
    decreases attempts.len(),
{
    if attempts.len() == 0 {
        assert(attempts.take(n) =~= attempts);
    } else if n == attempts.len() {
        assert(attempts.take(n) =~= attempts);
        total_ms_grows(attempts.drop_last(), 0);
        assert(attempts.drop_last().take(0) =~= Seq::empty());
    } else {
        total_ms_grows(attempts.drop_last(), n);
        assert(attempts.drop_last().take(n) =~= attempts.take(n));
    }
}

/// What is delivered: where it stands, and what the root checks said of it.
#[derive(Debug, Clone, PartialEq, Eq)]
pub struct Delivery {
    pub id: String,
    pub workspace: String,
    pub patch: String,
    pub patch_bytes: Vec<u8>,
    pub diff_stats: DiffStats,
    pub checks: Vec<CheckResult>,
}

/// The candidate that a planned goal delivers: nothing of it is put down to one attempt.
pub open spec fn delivers(c: CandidateRecord, was: CandidateRecord, d: Delivery, total: int) -> bool {
    &&& c == (CandidateRecord {
        id: d.id,
        workspace_path: d.workspace,
        diff_path: d.patch,
        diff_stats: d.diff_stats,
        harness_id: c.harness_id,
        harness_version: None,
        model: None,
        tokens: None,
        cost: None,
        token_semantics: c.token_semantics,
        checks: d.checks,
        status: CandidateStatus::Completed,
        duration_ms: total as u64,
        ..was
    })
    &&& c.harness_id@ == "mixed"@
    &&& optional_view(c.token_semantics) == Some("see_per_attempt"@)
}

/// The attempts that artifacts came from, in order.
pub open spec fn contributors(artifacts: Seq<Artifact>) -> Seq<Seq<char>> {
    artifacts.map_values(|a: Artifact| a.attempt_id@)
}

/// Whether a planned run was finished by a delivery.
pub open spec fn finishes(
    new: RunRecord,
    run: RunRecord,
    d: Delivery,
    refreshed: RunOutcome,
    now: i64,
) -> bool {
    let was = planning_of(run)->0;
    let policy = new.phase3->0;
    let p = policy.planning->0;
    &&& new == (RunRecord {
        status: RunStatus::ReadyForEvaluation,
        completed_at: Some(now),
        outcome: refreshed,
        candidates: new.candidates,
        phase3: new.phase3,
        ..run
    })
    &&& new.phase3 == Some(
        GoalExecution {
            planning: Some(p),
            contributing_attempts: policy.contributing_attempts,
            final_attempt_id: Some(run.attempts@.last().id),
            failure: None,
            ..run.phase3->0
        },
    )
    &&& p == (Planning {
        final_candidate: Some(d.id),
        final_patch_sha256: p.final_patch_sha256,
        ..was
    })
    &&& optional_view(p.final_patch_sha256) == Some(hash_text(d.patch_bytes@))
    &&& texts(policy.contributing_attempts@) == contributors(was.artifacts@)
    &&& new.candidates@.len() == 1
    &&& last_result(run.attempts@, run.attempts@.len() as int) matches Some(i) && exists|
        c: CandidateRecord,
    |
        same_candidate(c, run.attempts@[i].detail.result->0) && #[trigger] delivers(
            new.candidates@[0],
            c,
            d,
            total_ms(run.attempts@),
        )
}

/// Delivers a planned goal for review: the integrated tree with its root checks, as a separate delivery
/// and never as the patch of a last child. `refreshed` is what the delivery makes of the outcome.
pub fn deliver(
    run: &mut RunRecord,
    delivery: Delivery,
    refreshed: RunOutcome,
    now: i64,
) -> (r: Result<(), String>)
    requires
        planning_of(*old(run)) is Some,
        total_ms(old(run).attempts@) <= u64::MAX,
    ensures
        if last_result(old(run).attempts@, old(run).attempts@.len() as int) is None {
            &&& r matches Err(e) && e@ == "no delivery contribution"@
            &&& *final(run) == *old(run)
        } else {
            r is Ok && finishes(*final(run), *old(run), delivery, refreshed, now)
        },
{
    let mut n: usize = run.attempts.len();
    while n > 0 && run.attempts[n - 1].detail.result.is_none()
        invariant
            n <= run.attempts.len(),
            *run == *old(run),
            last_result(run.attempts@, run.attempts@.len() as int) == last_result(
                run.attempts@,
                n as int,
            ),
        decreases n,
    {
        n -= 1;
    }
    if n == 0 {
        return Err("no delivery contribution".to_owned());
    }
    let mut total: u64 = 0;
    let mut i: usize = 0;
    while i < run.attempts.len()
        invariant
            i <= run.attempts.len(),
            *run == *old(run),
            total == total_ms(run.attempts@.take(i as int)),
            total_ms(run.attempts@) <= u64::MAX,
        decreases run.attempts.len() - i,
    {
        assert(run.attempts@.take(i as int + 1).drop_last() =~= run.attempts@.take(i as int));
        proof {
            total_ms_grows(run.attempts@, i as int + 1);
        }
        if let Some(c) = &run.attempts[i].detail.result {
            total = total + c.duration_ms;
        }
        i += 1;
    }
    assert(run.attempts@.take(run.attempts@.len() as int) =~= run.attempts@);
    let mut candidate = match &run.attempts[n - 1].detail.result {
        Some(c) => c.copied(),
        None => {
            return Err("no delivery contribution".to_owned());
        },
    };
    let ghost was = candidate;
    let id = delivery.id.clone();
    candidate.id = delivery.id;
    candidate.workspace_path = delivery.workspace;
    candidate.diff_path = delivery.patch;
    candidate.diff_stats = delivery.diff_stats;
    candidate.harness_id = "mixed".to_owned();
    candidate.harness_version = None;
    candidate.model = None;
    candidate.tokens = None;
    candidate.cost = None;
    candidate.token_semantics = Some("see_per_attempt".to_owned());
    candidate.checks = delivery.checks;
    candidate.status = CandidateStatus::Completed;
    candidate.duration_ms = total;
    assert(delivers(candidate, was, delivery, total_ms(run.attempts@)));
    let m = run.attempts.len();
    let last = run.attempts[m - 1].id.clone();
    let mut from: Vec<String> = Vec::new();
    if let Some(p) = planning(run) {
        let mut k: usize = 0;
        while k < p.artifacts.len()
            invariant
                k <= p.artifacts.len(),
                from@.len() == k,
                forall|j: int| 0 <= j < k ==> (#[trigger] from@[j])@ == p.artifacts@[j].attempt_id@,
            decreases p.artifacts.len() - k,
        {
            from.push(p.artifacts[k].attempt_id.clone());
            k += 1;
        }
        assert(texts(from@) =~= contributors(p.artifacts@));
    }
    let hash = file_hash(delivery.patch_bytes.as_slice());
    if let Some(policy) = &mut run.phase3 {
        if let Some(p) = &mut policy.planning {
            p.final_candidate = Some(id);
            p.final_patch_sha256 = Some(hash);
        }
        policy.contributing_attempts = from;
        policy.final_attempt_id = Some(last);
        policy.failure = None;
    }
    let mut candidates: Vec<CandidateRecord> = Vec::new();
    candidates.push(candidate);
    run.candidates = candidates;
    run.outcome = refreshed;
    run.completed_at = Some(now);
    run.status = RunStatus::ReadyForEvaluation;
    proof {
        let before = *old(run);
        assert(last_result(before.attempts@, before.attempts@.len() as int) == Some(n - 1));
        assert(same_candidate(was, before.attempts@[n - 1].detail.result->0));
        assert(delivers(run.candidates@[0], was, delivery, total_ms(before.attempts@)));
    }
    Ok(())
}

} // verus!
