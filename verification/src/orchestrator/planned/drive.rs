//! The order in which planned work goes on: what each event makes of a planned goal, and what is to be done
//! next.

use vstd::prelude::*;

use crate::orchestrator::native::{fresh_question, verdict};
use crate::orchestrator::phase3::Execution;
use crate::orchestrator::planned::{
    accept_planner, accepted_writes_are_in_scope, admit_planner, admit_task, all_integrated, boundary, boundary_error,
    child_failure, consumed_artifacts, consumes_all, dependency, dependency_error, drive_failure,
    execution_error, execution_failure, extra_available, fail, finish_attempt, has_dependency,
    has_failed, has_recorded, is_next, is_put_aside, is_ready, is_repairable, is_retried, needs,
    needs_error, new_task, next_task, pause_task, repairable, retry_task, role_name,
    snapshot_at, specified, task_input, task_refusal, validate_writes, with_planning, writable,
    writes_error,
};
use crate::planning::{
    all_passed, artifacts_error, checks_passed, find_task, lane, lane_of, order, planning,
    planning_of, stuck, taken_in_order, task_with, task_with_is_listed, verify_artifact, ArtifactFacts, DependencyReport,
    PathKind, Plan, Planning, PlanningConfig, Snapshot, Task, TaskSpec, TaskState,
};

use crate::text::{contains_text, occurs, optional_str, optional_view, texts};
use crate::text_map::TextMap;
use crate::record::{
    CandidateRecord, CandidateStatus, CheckResult, CheckpointReport, Clarification, FailureKind,
    GoalExecution, LifecycleState, QuestionState, RunOutcome, RunRecord, VerificationState,
    WaitingOn,
};
use crate::router::{AllocationDecision, ResourceTier};

verus! {

/// Where a planned goal goes on.
#[derive(Debug, Clone, Copy, PartialEq, Eq, Structural)]
pub enum Opening {
    /// Its planner is launched.
    Plan,
    /// Its tasks are worked on.
    Work,
}

/// Where a planned goal goes on, or why it does not: it is planned once, from a sound baseline.
pub fn begin(run: &RunRecord, cancelled: bool, fingerprint: &str, now: i64) -> (r: Result<
    Opening,
    String,
>)
    requires
        planning_of(*run) is Some,
    ensures
        match boundary_error(*run, cancelled, fingerprint@, now) {
            Some(reason) => r matches Err(e) && e@ == reason,
            None => if planning_of(*run)->0.plan is Some {
                r == Ok::<Opening, String>(Opening::Work)
            } else if run.attempts@.len() > 0 {
                r matches Err(e) && e@ == "the single planner cannot be replayed"@
            } else if !all_passed(run.baseline_checks@) {
                r matches Err(e) && e@
                    == "planned execution requires passing baseline checks; fix the verification contract before planning"@
            } else {
                r == Ok::<Opening, String>(Opening::Plan)
            },
        },
{
    match boundary(run, cancelled, fingerprint, now) {
        Ok(()) => {},
        Err(e) => {
            return Err(e);
        },
    }
    if let Some(p) = planning(run) {
        if p.plan.is_some() {
            return Ok(Opening::Work);
        }
    }
    match admit_planner(run) {
        Ok(()) => Ok(Opening::Plan),
        Err(e) => Err(e),
    }
}

/// Takes a planner that returned: its attempt is recorded, and its plan is refused where it failed or
/// edited its input. `fingerprint` is that of its workspace.
pub fn take_planner(
    run: &mut RunRecord,
    e: &Execution,
    cancelled: bool,
    fingerprint: &str,
    input: &Snapshot,
    now: i64,
) -> (r: Result<(), String>)
    requires
        old(run).phase3 is Some,
        old(run).attempts@.len() > 0,
    ensures
        has_recorded(
            *final(run),
            *old(run),
            e.candidate,
            execution_error(*old(run), *e, cancelled, now),
        ),
        if execution_error(*old(run), *e, cancelled, now) is Some {
            r matches Err(m) && m@
                == "planner failed; its invocation and evidence are retained; no second plan is permitted"@
        } else if fingerprint@ != input.fingerprint@ {
            r matches Err(m) && m@
                == "planner edited source; edits were discarded from delivery and retained in its attempt"@
        } else {
            r is Ok
        },
{
    let failure = execution_failure(run, e, cancelled, now);
    finish_attempt(run, &e.candidate, failure);
    accept_planner(failure, fingerprint, input)
}

/// A task of a proposed plan with the tier that it has to run at.
#[derive(Debug, Clone, PartialEq, Eq)]
pub struct Laned {
    /// Where the task stands in the plan.
    pub index: usize,
    pub tier: ResourceTier,
    /// The ground for the tier.
    pub provenance: String,
}

/// Whether a task got the tier that its scope asks for.
pub open spec fn is_laned(
    l: Laned,
    tasks: Seq<TaskSpec>,
    kinds: Seq<Vec<Option<PathKind>>>,
    policy: PlanningConfig,
) -> bool {
    &&& l.index < tasks.len()
    &&& (l.tier, l.provenance@) == lane_of(
        tasks[l.index as int],
        kinds[l.index as int]@,
        policy,
    )
}

/// The identifiers of the tasks, in the order in which they got their tiers.
pub open spec fn laned_ids(lanes: Seq<Laned>, tasks: Seq<TaskSpec>) -> Seq<Seq<char>> {
    lanes.map_values(|l: Laned| tasks[l.index as int].id@)
}

proof fn ordered_tasks_are_listed(tasks: Seq<TaskSpec>, done: Seq<Seq<char>>, k: int)
    requires
        taken_in_order(tasks, done),
        0 <= k < done.len(),
    ensures
        task_with(tasks, done[k]) is Some,
{
    assert(crate::planning::comes_next(tasks, done.take(k), done[k]));
    let i = choose|i: int| #[trigger]
        crate::planning::runnable(tasks, done.take(k), i) && tasks[i].id@ == done[k];
    assert(tasks[i].id@ == done[k]);
    task_with_is_listed(tasks, done[k]);
}

/// The tiers that the tasks of a plan have to run at, prerequisites first. `kinds` says of every task what
/// stands at the paths that it writes.
pub fn lanes(plan: &Plan, kinds: &Vec<Vec<Option<PathKind>>>, policy: &PlanningConfig) -> (r: Result<
    Vec<Laned>,
    String,
>)
    requires
        kinds@.len() == plan.tasks@.len(),
        forall|i: int|
            0 <= i < kinds@.len() ==> (#[trigger] kinds@[i])@.len() == plan.tasks@[i].write@.len(),
    ensures
        match r {
            Ok(l) => {
                &&& l@.len() == plan.tasks@.len()
                &&& taken_in_order(plan.tasks@, laned_ids(l@, plan.tasks@))
                &&& forall|i: int|
                    0 <= i < l@.len() ==> is_laned(#[trigger] l@[i], plan.tasks@, kinds@, *policy)
            },
            Err(e) => e@ == "cyclic task dependencies"@ && stuck(plan.tasks@),
        },
{
    let ids = match order(plan) {
        Ok(ids) => ids,
        Err(e) => {
            return Err(e);
        },
    };
    let mut out: Vec<Laned> = Vec::new();
    let mut i: usize = 0;
    while i < ids.len()
        invariant
            i <= ids@.len(),
            i == out@.len(),
            ids@.len() == plan.tasks@.len(),
            kinds@.len() == plan.tasks@.len(),
            forall|k: int|
                0 <= k < kinds@.len() ==> (#[trigger] kinds@[k])@.len() == plan.tasks@[k].write@.len(),
            taken_in_order(plan.tasks@, texts(ids@)),
            forall|k: int| 0 <= k < i ==> is_laned(#[trigger] out@[k], plan.tasks@, kinds@, *policy),
            forall|k: int|
                0 <= k < i ==> plan.tasks@[(#[trigger] out@[k]).index as int].id@ == ids@[k]@,
        decreases ids@.len() - i,
    {
        proof {
            ordered_tasks_are_listed(plan.tasks@, texts(ids@), i as int);
            task_with_is_listed(plan.tasks@, ids@[i as int]@);
        }
        if let Some(index) = find_task(&plan.tasks, ids[i].as_str()) {
            let (tier, provenance) = lane(&plan.tasks[index], &kinds[index], policy);
            out.push(Laned { index, tier, provenance });
        }
        i += 1;
    }
    assert(laned_ids(out@, plan.tasks@) =~= texts(ids@));
    Ok(out)
}

/// The tasks of an accepted plan, in the order of their lanes, each with the route that was decided for it.
pub fn plan_tasks(plan: &Plan, lanes: &Vec<Laned>, mut routes: Vec<AllocationDecision>) -> (r: Vec<Task>)
    requires
        routes@.len() == lanes@.len(),
        forall|i: int| 0 <= i < lanes@.len() ==> (#[trigger] lanes@[i]).index < plan.tasks@.len(),
    ensures
        r@.len() == lanes@.len(),
        forall|i: int|
            0 <= i < r@.len() ==> {
                &&& (#[trigger] r@[i]).id@ == plan.tasks@[lanes@[i].index as int].id@
                &&& r@[i].state == TaskState::Pending
                &&& r@[i].decision == routes@[i]
                &&& r@[i].feature_provenance@ == lanes@[i].provenance@
                &&& r@[i].input is None
                &&& r@[i].artifact is None
                &&& r@[i].pending_prerequisite is None
                &&& r@[i].extra_reason is None
            },
{
    let ghost decided = routes@;
    let mut out: Vec<Task> = Vec::new();
    while out.len() < lanes.len()
        invariant
            out@.len() <= lanes@.len(),
            decided.len() == lanes@.len(),
            routes@ == decided.skip(out@.len() as int),
            forall|i: int| 0 <= i < lanes@.len() ==> (#[trigger] lanes@[i]).index < plan.tasks@.len(),
            forall|i: int|
                0 <= i < out@.len() ==> {
                    &&& (#[trigger] out@[i]).id@ == plan.tasks@[lanes@[i].index as int].id@
                    &&& out@[i].state == TaskState::Pending
                    &&& out@[i].decision == decided[i]
                    &&& out@[i].feature_provenance@ == lanes@[i].provenance@
                    &&& out@[i].input is None
                    &&& out@[i].artifact is None
                    &&& out@[i].pending_prerequisite is None
                    &&& out@[i].extra_reason is None
                },
        decreases lanes@.len() - out@.len(),
    {
        let i: usize = out.len();
        let route = routes.remove(0);
        let l = &lanes[i];
        assert(routes@ =~= decided.skip(i + 1));
        out.push(new_task(plan.tasks[l.index].id.as_str(), route, l.provenance.clone()));
    }
    out
}

/// The task to work on next.
#[derive(Debug, Clone, PartialEq, Eq)]
pub struct Chosen {
    /// Where it stands among the tasks of the goal.
    pub index: usize,
    /// The artifacts that it builds on.
    pub consumed: Vec<String>,
    /// Where the snapshot that it starts from stands among those of the goal.
    pub input: usize,
}

/// What a planned goal does next.
#[derive(Debug, Clone, PartialEq, Eq)]
pub enum Move {
    Work(Chosen),
    Deliver,
}

/// Where the input of a task stands among the snapshots, if it does.
pub open spec fn input_of(p: Planning, task: Task) -> Option<int> {
    if role_name(task) == "repair"@ {
        snapshot_at(p.snapshots@, optional_view(task.input), 0)
    } else {
        Some(p.snapshots@.len() - 1)
    }
}

/// Why the task that is next cannot be worked on, if it cannot.
pub open spec fn next_error(
    run: RunRecord,
    facts: Seq<ArtifactFacts>,
    index: int,
    now: i64,
) -> Option<Seq<char>> {
    let p = planning_of(run)->0;
    let task = p.tasks@[index];
    let spec = task_with(p.plan->0.tasks@, task.id@)->0;
    if task_refusal(run, task, now) is Some {
        task_refusal(run, task, now)
    } else if needs_error(p, facts, needs(spec, task), 0) is Some {
        needs_error(p, facts, needs(spec, task), 0)
    } else if input_of(p, task) is None {
        Some("repair input missing"@)
    } else {
        None
    }
}

/// What a planned goal does next, or why it stops. `facts` are what is found of its artifacts.
pub fn next_move(
    run: &RunRecord,
    cancelled: bool,
    fingerprint: &str,
    facts: &Vec<ArtifactFacts>,
    now: i64,
) -> (r: Result<Move, String>)
    requires
        planning_of(*run) matches Some(p) && specified(p) && p.snapshots@.len() > 0
            && facts@.len() == p.artifacts@.len(),
    ensures
        ({
            let p = planning_of(*run)->0;
            let specs = p.plan->0.tasks@;
            match boundary_error(*run, cancelled, fingerprint@, now) {
                Some(reason) => r matches Err(e) && e@ == reason,
                None => match r {
                    Ok(Move::Deliver) => all_integrated(p.tasks@),
                    Ok(Move::Work(c)) => {
                        &&& !all_integrated(p.tasks@)
                        &&& is_next(p.tasks@, specs, c.index as int)
                        &&& next_error(*run, facts@, c.index as int, now) is None
                        &&& consumes_all(
                            c.consumed@,
                            p,
                            facts@,
                            needs(
                                task_with(specs, p.tasks@[c.index as int].id@)->0,
                                p.tasks@[c.index as int],
                            ),
                        )
                        &&& input_of(p, p.tasks@[c.index as int]) == Some(c.input as int)
                        &&& c.input < p.snapshots@.len()
                    },
                    Err(e) => {
                        &&& !all_integrated(p.tasks@)
                        &&& {
                            ||| e@
                                == "unfinished tasks have no satisfiable prerequisites; partial contributions are retained"@
                                && forall|i: int|
                                0 <= i < p.tasks@.len() ==> !#[trigger] is_ready(p.tasks@, specs, i)
                            ||| exists|i: int| #[trigger]
                                is_next(p.tasks@, specs, i) && next_error(*run, facts@, i, now)
                                    == Some(e@)
                        }
                    },
                },
            }
        }),
{
    match boundary(run, cancelled, fingerprint, now) {
        Ok(()) => {},
        Err(e) => {
            return Err(e);
        },
    }
    if let Some(p) = planning(run) {
        if let Some(plan) = &p.plan {
            let index = match next_task(&p.tasks, &plan.tasks) {
                Ok(Some(index)) => index,
                Ok(None) => {
                    return Ok(Move::Deliver);
                },
                Err(e) => {
                    return Err(e);
                },
            };
            let task = &p.tasks[index];
            assert(is_next(p.tasks@, plan.tasks@, index as int));
            match admit_task(run, task, now) {
                Ok(()) => {},
                Err(e) => {
                    return Err(e);
                },
            }
            if let Some(k) = find_task(&plan.tasks, task.id.as_str()) {
                let consumed = match consumed_artifacts(run, &plan.tasks[k], task, facts) {
                    Ok(consumed) => consumed,
                    Err(e) => {
                        return Err(e);
                    },
                };
                let input = match task_input(p, task) {
                    Ok(input) => input,
                    Err(e) => {
                        return Err(e);
                    },
                };
                assert(p.snapshots.len() == p.snapshots@.len());
                return Ok(Move::Work(Chosen { index, consumed, input }));
            }
        }
    }
    Ok(Move::Deliver)
}

/// What an agent reports in place of finishing its task.
#[derive(Debug, Clone, PartialEq, Eq)]
pub enum Report {
    Nothing,
    /// A report that cannot be read, and why.
    Unreadable(String),
    Question(CheckpointReport),
    Dependency(DependencyReport),
}

/// Whether a final text is taken for the report of a dependency.
pub open spec fn names_dependency(text: Option<Seq<char>>) -> bool {
    text matches Some(t) && occurs(t, "dispatch_dependency"@)
}

/// Whether an agent reports anything in place of finishing: a checkpoint, or a final text that names a
/// dependency. There is no final text where the agent ended without one.
pub fn reports(checkpoint: bool, text: Option<&str>) -> (r: bool)
    ensures
        r == (checkpoint || names_dependency(optional_str(text))),
{
    if checkpoint {
        return true;
    }
    match text {
        Some(t) => contains_text(t, "dispatch_dependency"),
        None => false,
    }
}

/// What an agent reports, by its checkpoint and its final text: a checkpoint comes before a dependency.
pub open spec fn report_in(
    checkpoint: Option<Result<CheckpointReport, String>>,
    text: Option<Seq<char>>,
    read: Result<DependencyReport, String>,
) -> Report {
    match checkpoint {
        Some(Ok(report)) => Report::Question(report),
        Some(Err(message)) => Report::Unreadable(message),
        None => if names_dependency(text) {
            match read {
                Ok(report) => Report::Dependency(report),
                Err(message) => Report::Unreadable(message),
            }
        } else {
            Report::Nothing
        },
    }
}

/// What an agent reports. `checkpoint` is its checkpoint, or why that cannot be read; `text` is its final
/// text, and `read` the dependency in the text's envelope, or why there is none.
pub fn report_of(
    checkpoint: Option<Result<CheckpointReport, String>>,
    text: Option<&str>,
    read: Result<DependencyReport, String>,
) -> (r: Report)
    ensures
        r == report_in(checkpoint, optional_str(text), read),
        r is Nothing == !(checkpoint is Some || names_dependency(optional_str(text))),
{
    match checkpoint {
        Some(Ok(report)) => Report::Question(report),
        Some(Err(message)) => Report::Unreadable(message),
        None => if reports(false, text) {
            match read {
                Ok(report) => Report::Dependency(report),
                Err(message) => Report::Unreadable(message),
            }
        } else {
            Report::Nothing
        },
    }
}

/// What follows the attempt of a task that returned.
#[derive(Debug, Clone, Copy, PartialEq, Eq, Structural)]
pub enum Child {
    /// The goal has failed.
    Stopped,
    /// The goal waits for its owner.
    Asked,
    /// The goal goes on with another task.
    Continued,
    /// The work is published and checked.
    Check,
}

/// Whether `new` is the planned run once a question of one of its tasks was put.
pub open spec fn has_asked(
    new: RunRecord,
    run: RunRecord,
    report: CheckpointReport,
    id: Seq<char>,
    now: i64,
) -> bool {
    let was = run.phase3->0;
    let p = new.phase3->0;
    &&& new == (RunRecord {
        outcome: RunOutcome {
            lifecycle: LifecycleState::Waiting,
            waiting_on: WaitingOn::Human,
            ..run.outcome
        },
        phase3: Some(p),
        ..run
    })
    &&& p == (GoalExecution { questions: p.questions, ..was })
    &&& p.questions@.len() == was.questions@.len() + 1
    &&& p.questions@.drop_last() == was.questions@
    &&& fresh_question(p.questions@.last(), run, report, id, now)
}

fn ask(run: &mut RunRecord, report: CheckpointReport, id: &str, now: i64)
    requires
        old(run).phase3 is Some,
        old(run).attempts@.len() > 0,
    ensures
        has_asked(*final(run), *old(run), report, id@, now),
{
    let n = run.attempts.len();
    let question = Clarification {
        id: id.to_owned(),
        run_id: run.id.clone(),
        attempt_id: run.attempts[n - 1].id.clone(),
        generation: 1,
        revision: 1,
        report,
        state: QuestionState::Pending,
        answer: None,
        created_at: now,
        resolved_at: None,
        actor_uid: None,
        actor: None,
    };
    if let Some(policy) = &mut run.phase3 {
        policy.questions.push(question);
    }
    run.outcome.lifecycle = LifecycleState::Waiting;
    run.outcome.waiting_on = WaitingOn::Human;
    assert(run.phase3->0.questions@.drop_last() =~= old(run).phase3->0.questions@);
}

/// What a report makes of a goal whose task was put aside for it.
pub open spec fn reported(
    new: RunRecord,
    aside: RunRecord,
    index: int,
    report: Report,
    id: Seq<char>,
    now: i64,
    r: Result<Child, String>,
) -> bool {
    match report {
        Report::Question(q) => r == Ok::<Child, String>(Child::Asked) && has_asked(
            new,
            aside,
            q,
            id,
            now,
        ),
        Report::Dependency(d) => match dependency_error(aside, index, d) {
            Some(message) => r matches Err(e) && e@ == message && new == aside,
            None => {
                let waiting = RunRecord { outcome: aside.outcome, ..new };
                &&& r == Ok::<Child, String>(Child::Continued)
                &&& has_dependency(waiting, aside, index, d)
                &&& new.outcome == (RunOutcome { waiting_on: WaitingOn::Dependency, ..aside.outcome })
            },
        },
        Report::Unreadable(message) => r == Err::<Child, String>(message) && new == aside,
        Report::Nothing => true,
    }
}

/// What the returned attempt of a task makes of its goal.
pub open spec fn child_taken(
    new: RunRecord,
    run: RunRecord,
    index: int,
    e: Execution,
    report: Report,
    writes: Option<Seq<char>>,
    cancelled: bool,
    id: Seq<char>,
    now: i64,
    r: Result<Child, String>,
) -> bool {
    match execution_error(run, e, cancelled, now) {
        Some(failure) => {
            &&& r == Ok::<Child, String>(Child::Stopped)
            &&& exists|recorded: RunRecord| #[trigger]
                has_recorded(recorded, run, e.candidate, Some(failure)) && has_failed(
                    new,
                    recorded,
                    failure,
                    "child invocation did not safely complete; unrelated children were not launched"@,
                    now,
                )
        },
        None => match writes {
            Some(message) => {
                &&& r matches Err(m) && m@ == message
                &&& has_recorded(new, run, e.candidate, Some(FailureKind::Authorization))
            },
            None => if report is Nothing {
                r == Ok::<Child, String>(Child::Check) && new == run
            } else {
                exists|recorded: RunRecord| #[trigger]
                    has_recorded(recorded, run, e.candidate, None) && if !extra_available(
                        recorded,
                        now,
                    ) {
                        &&& r matches Err(m) && m@
                            == "checkpoint cannot continue: goal's shared extra is unavailable"@
                        &&& new == recorded
                    } else {
                        exists|aside: RunRecord| #[trigger]
                            is_put_aside(aside, recorded, index) && reported(
                                new,
                                aside,
                                index,
                                report,
                                id,
                                now,
                                r,
                            )
                    }
            },
        },
    }
}

proof fn put_aside_stays_specified(new: RunRecord, run: RunRecord, index: int)
    requires
        planning_of(run) matches Some(p) && specified(p) && 0 <= index < p.tasks@.len(),
        is_put_aside(new, run, index),
    ensures
        planning_of(new) matches Some(p) && specified(p) && p.tasks@.len() == planning_of(
            run,
        )->0.tasks@.len(),
{
    let was = planning_of(run)->0;
    let p = planning_of(new)->0;
    assert forall|i: int| 0 <= i < p.tasks@.len() implies task_with(
        p.plan->0.tasks@,
        (#[trigger] p.tasks@[i]).id@,
    ) is Some by {
        assert(p.tasks@[i].id@ == was.tasks@[i].id@);
    }
}

/// Takes the returned attempt of a task: a failed one fails the goal, one that wrote out of scope is
/// refused, one that reports a question or a dependency is put aside, and the work of any other goes on to
/// its checks. `changed` are the files that it changed; `id` names the question that may be put.
pub fn take_child(
    run: &mut RunRecord,
    index: usize,
    e: &Execution,
    report: Report,
    spec: &TaskSpec,
    changed: &Vec<String>,
    input: &TextMap<PathKind>,
    workspace: &TextMap<PathKind>,
    cancelled: bool,
    id: &str,
    now: i64,
) -> (r: Result<Child, String>)
    requires
        planning_of(*old(run)) matches Some(p) && specified(p) && index < p.tasks@.len(),
        old(run).attempts@.len() > 0,
    ensures
        child_taken(
            *final(run),
            *old(run),
            index as int,
            *e,
            report,
            writes_error(*spec, changed@, *input, *workspace, 0),
            cancelled,
            id@,
            now,
            r,
        ),
{
    if let Some(failure) = execution_failure(run, e, cancelled, now) {
        finish_attempt(run, &e.candidate, Some(failure));
        let ghost recorded = *run;
        fail(
            run,
            failure,
            "child invocation did not safely complete; unrelated children were not launched",
            now,
        );
        assert(has_recorded(recorded, *old(run), e.candidate, Some(failure)));
        return Ok(Child::Stopped);
    }
    match validate_writes(spec, changed, input, workspace) {
        Ok(()) => {},
        Err(message) => {
            finish_attempt(run, &e.candidate, Some(FailureKind::Authorization));
            return Err(message);
        },
    }
    match &report {
        Report::Nothing => {
            return Ok(Child::Check);
        },
        _ => {},
    }
    finish_attempt(run, &e.candidate, None);
    let ghost recorded = *run;
    assert(has_recorded(recorded, *old(run), e.candidate, None));
    match pause_task(run, index, now) {
        Ok(()) => {},
        Err(message) => {
            return Err(message);
        },
    }
    let ghost aside = *run;
    proof {
        assert(is_put_aside(aside, recorded, index as int));
        put_aside_stays_specified(aside, recorded, index as int);
    }
    match report {
        Report::Nothing => Ok(Child::Check),
        Report::Unreadable(message) => Err(message),
        Report::Question(q) => {
            ask(run, q, id, now);
            Ok(Child::Asked)
        },
        Report::Dependency(d) => {
            match dependency(run, index, d) {
                Ok(()) => {},
                Err(message) => {
                    return Err(message);
                },
            }
            let ghost waiting = *run;
            run.outcome.waiting_on = WaitingOn::Dependency;
            assert(RunRecord { outcome: aside.outcome, ..*run } == waiting);
            Ok(Child::Continued)
        },
    }
}

/// What follows the checks of published work.
#[derive(Debug, Clone, Copy, PartialEq, Eq, Structural)]
pub enum Checked {
    /// The work is integrated.
    Integrate,
    /// The task is repaired.
    Retry,
    /// The goal has failed.
    Stopped,
}

/// What checks that did not pass say went wrong.
pub open spec fn blamed(before: Seq<CheckResult>, checks: Seq<CheckResult>) -> FailureKind {
    match verdict(before, checks) {
        Some(failure) => failure,
        None => FailureKind::VerificationUnknown,
    }
}

/// What the checks of a task make of its goal.
pub open spec fn checks_taken(
    new: RunRecord,
    run: RunRecord,
    index: int,
    candidate: CandidateRecord,
    before: Seq<CheckResult>,
    now: i64,
    r: Checked,
) -> bool {
    if all_passed(candidate.checks@) {
        r == Checked::Integrate && has_recorded(new, run, candidate, None)
    } else {
        let failure = blamed(before, candidate.checks@);
        exists|recorded: RunRecord| #[trigger]
            has_recorded(recorded, run, candidate, Some(failure)) && if is_repairable(
                recorded,
                failure,
                now,
            ) {
                r == Checked::Retry && is_retried(new, recorded, index)
            } else {
                r == Checked::Stopped && has_failed(
                    new,
                    recorded,
                    failure,
                    "child checks failed; shared recovery is unavailable or inappropriate"@,
                    now,
                )
            }
    }
}

/// Takes the checks of a task, which `candidate` holds; `before` are the same checks on its input. Work that
/// passed is integrated, a failed target check is repaired where the shared invocation is left, and
/// anything else fails the goal.
pub fn take_checks(
    run: &mut RunRecord,
    index: usize,
    candidate: &CandidateRecord,
    before: &Vec<CheckResult>,
    now: i64,
) -> (r: Checked)
    requires
        planning_of(*old(run)) matches Some(p) && index < p.tasks@.len(),
        old(run).attempts@.len() > 0,
    ensures
        checks_taken(*final(run), *old(run), index as int, *candidate, before@, now, r),
{
    if checks_passed(&candidate.checks) {
        finish_attempt(run, candidate, None);
        return Checked::Integrate;
    }
    let failure = child_failure(before, &candidate.checks);
    finish_attempt(run, candidate, Some(failure));
    let ghost recorded = *run;
    assert(has_recorded(recorded, *old(run), *candidate, Some(failure)));
    if repairable(run, failure, now) {
        retry_task(run, index);
        Checked::Retry
    } else {
        fail(
            run,
            failure,
            "child checks failed; shared recovery is unavailable or inappropriate",
            now,
        );
        Checked::Stopped
    }
}

/// Refuses to deliver where one of the artifacts cannot be relied on.
pub fn check_artifacts(run: &RunRecord, facts: &Vec<ArtifactFacts>) -> (r: Result<(), String>)
    requires
        planning_of(*run) matches Some(p) && facts@.len() == p.artifacts@.len(),
    ensures
        match artifacts_error(planning_of(*run)->0, facts@, 0) {
            Some(message) => r matches Err(e) && e@ == message,
            None => r is Ok,
        },
{
    if let Some(p) = planning(run) {
        let mut i: usize = 0;
        while i < p.artifacts.len()
            invariant
                i <= p.artifacts@.len(),
                planning_of(*run) == Some(*p),
                facts@.len() == p.artifacts@.len(),
                artifacts_error(*p, facts@, 0) == artifacts_error(*p, facts@, i as int),
            decreases p.artifacts@.len() - i,
        {
            match verify_artifact(run, &p.artifacts[i], &facts[i]) {
                Ok(()) => {},
                Err(e) => {
                    return Err(e);
                },
            }
            i += 1;
        }
    }
    Ok(())
}

/// What follows the checks of the whole goal.
#[derive(Debug, Clone, Copy, PartialEq, Eq, Structural)]
pub enum Root {
    /// The goal is delivered.
    Deliver,
    /// The integrated work is repaired.
    Repair,
    /// The goal has failed.
    Stopped,
}

/// A run with other checks of its whole goal.
pub open spec fn with_root_checks(run: RunRecord, checks: Vec<CheckResult>) -> RunRecord {
    with_planning(run, Planning { root_checks: checks, ..planning_of(run)->0 })
}

fn set_root_checks(run: &mut RunRecord, checks: Vec<CheckResult>)
    requires
        planning_of(*old(run)) is Some,
    ensures
        *final(run) == with_root_checks(*old(run), checks),
{
    if let Some(policy) = &mut run.phase3 {
        if let Some(p) = &mut policy.planning {
            p.root_checks = checks;
        }
    }
}

/// A run whose verification is known to have failed, or to have said nothing.
pub open spec fn root_verified(run: RunRecord, failure: FailureKind) -> RunRecord {
    RunRecord {
        outcome: RunOutcome {
            verification: (if failure == FailureKind::TargetVerification {
                VerificationState::Failed
            } else {
                VerificationState::Inconclusive
            }),
            ..run.outcome
        },
        ..run
    }
}

/// Takes the checks of the integrated goal: it is delivered where they passed, repaired where they blame the
/// target and the shared invocation is left, and fails otherwise.
pub fn take_root_checks(run: &mut RunRecord, checks: Vec<CheckResult>, now: i64) -> (r: Result<
    Root,
    String,
>)
    requires
        planning_of(*old(run)) is Some,
    ensures
        ({
            let held = with_root_checks(*old(run), checks);
            let failure = blamed(held.baseline_checks@, checks@);
            if all_passed(checks@) {
                r == Ok::<Root, String>(Root::Deliver) && *final(run) == held
            } else if held.attempts@.len() == 0 || held.attempts@.last().detail.result is None {
                &&& r matches Err(e) && e@ == "root verification lacks a contribution"@
                &&& *final(run) == held
            } else if is_repairable(held, failure, now) {
                r == Ok::<Root, String>(Root::Repair) && *final(run) == held
            } else {
                &&& r == Ok::<Root, String>(Root::Stopped)
                &&& has_failed(
                    *final(run),
                    root_verified(held, failure),
                    failure,
                    "root verification failed; no eligible shared repair remains"@,
                    now,
                )
            }
        }),
{
    let passed = checks_passed(&checks);
    let judged = crate::orchestrator::planned::root_failure(run, &checks);
    set_root_checks(run, checks);
    if passed {
        return Ok(Root::Deliver);
    }
    let failure = match judged {
        Ok(failure) => failure,
        Err(e) => {
            return Err(e);
        },
    };
    if repairable(run, failure, now) {
        return Ok(Root::Repair);
    }
    crate::orchestrator::planned::record_root_failure(run, failure);
    fail(run, failure, "root verification failed; no eligible shared repair remains", now);
    Ok(Root::Stopped)
}

/// What the returned repair of the integrated work makes of its goal.
pub open spec fn repair_taken(
    new: RunRecord,
    run: RunRecord,
    e: Execution,
    reports: bool,
    writes: Option<Seq<char>>,
    cancelled: bool,
    now: i64,
    r: Result<Child, String>,
) -> bool {
    match execution_error(run, e, cancelled, now) {
        Some(failure) => {
            &&& r == Ok::<Child, String>(Child::Stopped)
            &&& exists|recorded: RunRecord| #[trigger]
                has_recorded(recorded, run, e.candidate, Some(failure)) && has_failed(
                    new,
                    recorded,
                    failure,
                    "integration repair failed"@,
                    now,
                )
        },
        None => match writes {
            Some(message) => {
                &&& r matches Err(m) && m@ == message
                &&& has_recorded(new, run, e.candidate, Some(FailureKind::Authorization))
            },
            None => if reports {
                &&& r == Ok::<Child, String>(Child::Stopped)
                &&& exists|recorded: RunRecord| #[trigger]
                    has_recorded(
                        recorded,
                        run,
                        e.candidate,
                        Some(FailureKind::InvocationLimit),
                    ) && has_failed(
                        new,
                        recorded,
                        FailureKind::InvocationLimit,
                        "integration repair cannot request another continuation"@,
                        now,
                    )
            } else {
                r == Ok::<Child, String>(Child::Check) && new == run
            },
        },
    }
}

/// Takes the returned repair of the integrated work. It has spent the shared invocation, so `reports`, that
/// it asks for another one, fails the goal.
pub fn take_repair(
    run: &mut RunRecord,
    e: &Execution,
    reports: bool,
    spec: &TaskSpec,
    changed: &Vec<String>,
    input: &TextMap<PathKind>,
    workspace: &TextMap<PathKind>,
    cancelled: bool,
    now: i64,
) -> (r: Result<Child, String>)
    requires
        planning_of(*old(run)) is Some,
        old(run).attempts@.len() > 0,
    ensures
        repair_taken(
            *final(run),
            *old(run),
            *e,
            reports,
            writes_error(*spec, changed@, *input, *workspace, 0),
            cancelled,
            now,
            r,
        ),
{
    if let Some(failure) = execution_failure(run, e, cancelled, now) {
        finish_attempt(run, &e.candidate, Some(failure));
        let ghost recorded = *run;
        fail(run, failure, "integration repair failed", now);
        assert(has_recorded(recorded, *old(run), e.candidate, Some(failure)));
        return Ok(Child::Stopped);
    }
    match validate_writes(spec, changed, input, workspace) {
        Ok(()) => {},
        Err(message) => {
            finish_attempt(run, &e.candidate, Some(FailureKind::Authorization));
            return Err(message);
        },
    }
    if reports {
        finish_attempt(run, &e.candidate, Some(FailureKind::InvocationLimit));
        let ghost recorded = *run;
        fail(
            run,
            FailureKind::InvocationLimit,
            "integration repair cannot request another continuation",
            now,
        );
        assert(has_recorded(
            recorded,
            *old(run),
            e.candidate,
            Some(FailureKind::InvocationLimit),
        ));
        return Ok(Child::Stopped);
    }
    Ok(Child::Check)
}

/// What is recorded as the failure of a repair.
pub open spec fn repair_failure(before: Seq<CheckResult>, checks: Seq<CheckResult>) -> Option<
    FailureKind,
> {
    if all_passed(checks) {
        None
    } else {
        Some(blamed(before, checks))
    }
}

/// What the checks of the repaired work make of its goal.
pub open spec fn repair_checks_taken(
    new: RunRecord,
    run: RunRecord,
    candidate: CandidateRecord,
    now: i64,
    r: Checked,
) -> bool {
    let passed = all_passed(candidate.checks@);
    let failure = blamed(run.baseline_checks@, candidate.checks@);
    exists|recorded: RunRecord, checks: Vec<CheckResult>|
        {
            &&& #[trigger] has_recorded(
                recorded,
                run,
                candidate,
                repair_failure(run.baseline_checks@, candidate.checks@),
            )
            &&& checks@ == candidate.checks@
            &&& if passed {
                r == Checked::Integrate && new == #[trigger] with_root_checks(recorded, checks)
            } else {
                r == Checked::Stopped && has_failed(
                    new,
                    with_root_checks(recorded, checks),
                    failure,
                    "shared integration repair did not pass root checks"@,
                    now,
                )
            }
        }
}

/// Takes the checks of the repaired work, which `candidate` holds: it is integrated where they passed, and
/// the goal fails otherwise.
pub fn take_repair_checks(run: &mut RunRecord, candidate: &CandidateRecord, now: i64) -> (r: Checked)
    requires
        planning_of(*old(run)) is Some,
        old(run).attempts@.len() > 0,
    ensures
        repair_checks_taken(*final(run), *old(run), *candidate, now, r),
{
    let passed = checks_passed(&candidate.checks);
    let failure = child_failure(&run.baseline_checks, &candidate.checks);
    let kept = if passed {
        None
    } else {
        Some(failure)
    };
    finish_attempt(run, candidate, kept);
    let ghost recorded = *run;
    let checks = candidate.copied().checks;
    let ghost held = checks;
    set_root_checks(run, checks);
    assert(kept == repair_failure(old(run).baseline_checks@, candidate.checks@));
    assert(has_recorded(recorded, *old(run), *candidate, kept));
    assert(*run == with_root_checks(recorded, held));
    if passed {
        return Checked::Integrate;
    }
    fail(run, failure, "shared integration repair did not pass root checks", now);
    Checked::Stopped
}

/// Takes the checks of the repaired goal on its published tree: it is delivered where they passed, and fails
/// otherwise.
pub fn take_repaired_checks(run: &mut RunRecord, checks: Vec<CheckResult>, now: i64) -> (r: Root)
    requires
        planning_of(*old(run)) is Some,
    ensures
        ({
            let held = with_root_checks(*old(run), checks);
            let failure = blamed(held.baseline_checks@, checks@);
            if all_passed(checks@) {
                r == Root::Deliver && *final(run) == held
            } else {
                r == Root::Stopped && has_failed(
                    *final(run),
                    held,
                    failure,
                    "published repaired integration failed root checks"@,
                    now,
                )
            }
        }),
{
    let passed = checks_passed(&checks);
    let failure = child_failure(&run.baseline_checks, &checks);
    set_root_checks(run, checks);
    if passed {
        return Root::Deliver;
    }
    fail(run, failure, "published repaired integration failed root checks", now);
    Root::Stopped
}

/// Fails a planned goal that an error stopped.
pub fn abandon(run: &mut RunRecord, cancelled: bool, error: &str, now: i64)
    requires
        planning_of(*old(run)) is Some,
    ensures
        has_failed(
            *final(run),
            *old(run),
            if cancelled || now >= old(run).phase3->0.deadline_at {
                crate::orchestrator::native::interruption(*old(run), now)
            } else {
                FailureKind::InternalState
            },
            error@,
            now,
        ),
{
    let failure = drive_failure(run, cancelled, now);
    fail(run, failure, error, now);
}

/// Work is integrated only where its attempt completed and gave back its admission, nobody had cancelled the
/// goal, everything that it changed lies in the scope of its task, and every check of it passed.
pub proof fn only_checked_work_in_scope_is_integrated(
    run: RunRecord,
    returned: RunRecord,
    integrated: RunRecord,
    index: int,
    e: Execution,
    report: Report,
    spec: TaskSpec,
    changed: Seq<String>,
    input: TextMap<PathKind>,
    workspace: TextMap<PathKind>,
    cancelled: bool,
    id: Seq<char>,
    candidate: CandidateRecord,
    before: Seq<CheckResult>,
    now: i64,
    later: i64,
)
    requires
        child_taken(
            returned,
            run,
            index,
            e,
            report,
            writes_error(spec, changed, input, workspace, 0),
            cancelled,
            id,
            now,
            Ok(Child::Check),
        ),
        checks_taken(integrated, returned, index, candidate, before, later, Checked::Integrate),
    ensures
        !cancelled,
        e.admission_released,
        e.candidate.status == CandidateStatus::Completed,
        report is Nothing,
        forall|k: int| 0 <= k < changed.len() ==> writable(spec, (#[trigger] changed[k])@),
        all_passed(candidate.checks@),
{
    assert forall|k: int| 0 <= k < changed.len() implies writable(spec, (#[trigger] changed[k])@) by {
        accepted_writes_are_in_scope(spec, changed, input, workspace, 0, k);
    }
}

/// A task is worked on again only for a target check that passed on its input, where repairs are allowed and
/// the goal's shared invocation is left.
pub proof fn only_failed_targets_are_repaired(
    run: RunRecord,
    retried: RunRecord,
    index: int,
    candidate: CandidateRecord,
    before: Seq<CheckResult>,
    now: i64,
)
    requires
        checks_taken(retried, run, index, candidate, before, now, Checked::Retry),
    ensures
        verdict(before, candidate.checks@) == Some(FailureKind::TargetVerification),
        !run.phase3->0.no_retry,
        now < run.phase3->0.deadline_at,
{
}

} // verus!
