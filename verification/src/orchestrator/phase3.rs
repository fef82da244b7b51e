//! The admitted engine: attempts that wait for capacity, one stronger recovery after a failed target
//! check, and explicit recovery of a checkpoint whose owner went away.

use vstd::prelude::*;

use crate::orchestrator::native::{
    after_interruption, after_return, ask, contribute, contributes, delivered_status, has_asked,
    interrupted, interruption, invocation_limit, leftover, put_question, put_stopped,
    question_refusal, question_text, questions_open_ended, resolve, resolves, stopped_text,
    take_return, unreturned, verdict, verification_failure, waiting_question, Checkpoint, Headline,
    QuestionCommand, Returned, Turn,
};

use crate::text::{copy_optional, optional_view, same, same_optional};
use crate::record::{
    AdmissionSummary, AttemptDetail, AttemptRecord, CandidateRecord, CandidateStatus, FailureKind,
    GoalExecution, LifecycleState, QuestionState, ReviewState, RunOutcome, RunPhase, RunRecord,
    RunStatus, VerificationState, WaitingOn, WorkResult, same_candidate,
};
use crate::router::{
    AllocationDecision, ResourceConfig, ResourceProfile, ResourceTier, TaskFeatures, rank,
    same_profile, select_resource, selection_result, tier_rank, under_harness,
};
use crate::process::{IdentityState, ProcessIdentity};

verus! {

/// Interrupts a run that was abandoned. `supervisor` is the state of its recorded supervisor, or of the
/// owner of its latest admission where it has none; `unresolved` says whether an admission or a lease of
/// it is still open, and may have a live child.
pub fn repair_abandoned(
    run: &mut RunRecord,
    supervisor: Option<IdentityState>,
    unresolved: bool,
    now: i64,
) -> (r: bool)
    ensures
        r == crate::orchestrator::native::abandoned(*old(run), supervisor, unresolved),
        *final(run) == (if r {
            after_interruption(*old(run), false, now)
        } else {
            *old(run)
        }),
{
    crate::orchestrator::native::repair_abandoned(run, supervisor, unresolved, now)
}

/// The status of a run that a failure stopped.
pub open spec fn stopped_status(failure: FailureKind) -> RunStatus {
    if failure == FailureKind::CapacityAdmission {
        RunStatus::Deferred
    } else {
        RunStatus::Failed
    }
}

/// The result of work that a failure stopped.
pub open spec fn stopped_result(failure: FailureKind) -> WorkResult {
    match failure {
        FailureKind::Cancelled => WorkResult::Cancelled,
        FailureKind::CapacityAdmission => WorkResult::Deferred,
        _ => WorkResult::Failed,
    }
}

/// Whether the admission of a run has to be reconciled by hand.
pub open spec fn reconciling(run: RunRecord) -> bool {
    run.admission matches Some(a) && a.reconciling
}

/// The admission of a run, where it is that of the attempt.
pub open spec fn own_admission(
    admission: Option<AdmissionSummary>,
    attempt: Seq<char>,
) -> Option<AdmissionSummary> {
    match admission {
        Some(a) => if a.attempt_id@ == attempt {
            Some(a)
        } else {
            None
        },
        None => None,
    }
}

/// An unreturned attempt after its run was stopped before the launch.
pub open spec fn closed_attempt(
    new: AttemptRecord,
    was: AttemptRecord,
    run: RunRecord,
    failure: FailureKind,
    now: i64,
) -> bool {
    &&& new == (AttemptRecord {
        completed_at: Some(now),
        outcome: new.outcome,
        detail: AttemptDetail {
            failure: Some(failure),
            capacity: run.capacity,
            admission: own_admission(run.admission, was.id@),
            ..was.detail
        },
        ..was
    })
    &&& new.outcome@ == "not_launched"@
}

/// A run after a failure stopped it, but for its attempts.
pub open spec fn after_stop(
    run: RunRecord,
    attempts: Vec<AttemptRecord>,
    failure: FailureKind,
    now: i64,
) -> RunRecord {
    RunRecord {
        status: stopped_status(failure),
        completed_at: Some(now),
        outcome: RunOutcome {
            lifecycle: LifecycleState::Finished,
            work_result: stopped_result(failure),
            phase: RunPhase::Finished,
            review: ReviewState::NotRequested,
            waiting_on: leftover(reconciling(run)),
            ..run.outcome
        },
        phase3: Some(GoalExecution { failure: Some(failure), ..run.phase3->0 }),
        attempts,
        ..run
    }
}

fn copy_admission(admission: &Option<AdmissionSummary>, attempt: &str) -> (r: Option<AdmissionSummary>)
    ensures
        r == own_admission(*admission, attempt@),
{
    match admission {
        Some(a) => if same(a.attempt_id.as_str(), attempt) {
            Some(
                AdmissionSummary { attempt_id: a.attempt_id.clone(), reconciling: a.reconciling },
            )
        } else {
            None
        },
        None => None,
    }
}

/// Whether `new` is the run once it was stopped.
pub open spec fn is_stopped(new: RunRecord, run: RunRecord, failure: FailureKind, now: i64) -> bool {
    &&& new == after_stop(run, new.attempts, failure, now)
    &&& new.attempts@.len() == run.attempts@.len()
    &&& if unreturned(run.attempts@) {
        &&& new.attempts@.drop_last() == run.attempts@.drop_last()
        &&& closed_attempt(new.attempts@.last(), run.attempts@.last(), run, failure, now)
    } else {
        new.attempts == run.attempts
    }
}

/// Stops a run.
pub fn stop(run: &mut RunRecord, failure: FailureKind, now: i64)
    requires
        old(run).phase3 is Some,
    ensures
        is_stopped(*final(run), *old(run), failure, now),
{
    let reconcile = match &run.admission {
        Some(a) => a.reconciling,
        None => false,
    };
    if let Some(policy) = &mut run.phase3 {
        policy.failure = Some(failure);
    }
    run.completed_at = Some(now);
    run.status = match failure {
        FailureKind::CapacityAdmission => RunStatus::Deferred,
        _ => RunStatus::Failed,
    };
    run.outcome.lifecycle = LifecycleState::Finished;
    run.outcome.work_result = match failure {
        FailureKind::Cancelled => WorkResult::Cancelled,
        FailureKind::CapacityAdmission => WorkResult::Deferred,
        _ => WorkResult::Failed,
    };
    run.outcome.phase = RunPhase::Finished;
    run.outcome.review = ReviewState::NotRequested;
    run.outcome.waiting_on = if reconcile {
        WaitingOn::Reconciliation
    } else {
        WaitingOn::Nothing
    };
    let n = run.attempts.len();
    if n > 0 && run.attempts[n - 1].completed_at.is_none() {
        let capacity = copy_optional(&run.capacity);
        let admission = copy_admission(&run.admission, run.attempts[n - 1].id.as_str());
        let attempt = &mut run.attempts[n - 1];
        attempt.completed_at = Some(now);
        attempt.outcome = "not_launched".to_owned();
        attempt.detail.failure = Some(failure);
        attempt.detail.capacity = capacity;
        attempt.detail.admission = admission;
    }
    assert(final(run).attempts@.drop_last() =~= old(run).attempts@.drop_last());
}

/// The heading of a result.
pub open spec fn heading(run: RunRecord) -> Seq<char> {
    if run.outcome.verification == VerificationState::Passed {
        "Ready for review"@
    } else {
        "Work stopped; inspect verification and attempt details"@
    }
}

/// What a run reports first: the question it waits on, its result, or that it stopped.
pub fn emit(run: &RunRecord) -> (r: Headline)
    ensures
        match waiting_question(*run) {
            Some(q) => r matches Headline::Question(text) && text@ == question_text(*run, q),
            None => if run.candidates@.len() > 0 {
                r matches Headline::Result(text) && text@ == heading(*run)
            } else {
                r matches Headline::Stopped(text) && text@ == stopped_text(*run)
            },
        },
{
    if let Some(question) = put_question(run) {
        return Headline::Question(question);
    }
    if run.candidates.len() == 0 {
        return Headline::Stopped(put_stopped(run));
    }
    Headline::Result(
        if run.outcome.verification == VerificationState::Passed {
            "Ready for review".to_owned()
        } else {
            "Work stopped; inspect verification and attempt details".to_owned()
        },
    )
}

/// Why an attempt was not admitted.
pub open spec fn unadmitted(run: RunRecord, cancelled: bool, deferred: bool, now: i64) -> FailureKind {
    if cancelled {
        interruption(run, now)
    } else {
        match run.phase3->0.failure {
            Some(failure) => failure,
            None => if deferred {
                FailureKind::CapacityAdmission
            } else {
                FailureKind::InternalState
            },
        }
    }
}

/// Why an attempt that could not be admitted stops its goal. `deferred` says whether capacity was
/// missing; anything else is an internal fault, unless a failure was recorded.
pub fn admission_failure(run: &RunRecord, cancelled: bool, deferred: bool, now: i64) -> (r: FailureKind)
    requires
        run.phase3 is Some,
    ensures
        r == unadmitted(*run, cancelled, deferred, now),
{
    if cancelled {
        return interrupted(run, now);
    }
    if let Some(policy) = &run.phase3 {
        if let Some(failure) = policy.failure {
            return failure;
        }
    }
    if deferred {
        FailureKind::CapacityAdmission
    } else {
        FailureKind::InternalState
    }
}

/// How an admitted attempt returned.
#[derive(Debug, Clone, PartialEq, Eq)]
pub struct Execution {
    pub candidate: CandidateRecord,
    /// Whether its admission was released.
    pub admission_released: bool,
    pub failure: Option<FailureKind>,
    pub checkpoint: Checkpoint,
}

/// What went wrong with an attempt that returned, its checks included.
pub open spec fn failure_of(
    run: RunRecord,
    execution: Execution,
    cancelled: bool,
    now: i64,
) -> Option<FailureKind> {
    if cancelled {
        Some(interruption(run, now))
    } else if !execution.admission_released {
        Some(FailureKind::InternalState)
    } else if execution.candidate.status != CandidateStatus::Completed {
        Some(
            match execution.failure {
                Some(failure) => failure,
                None => FailureKind::HarnessProcess,
            },
        )
    } else if execution.checkpoint is Unsupported {
        Some(FailureKind::UnsupportedCheckpoint)
    } else if execution.checkpoint is Question && run.attempts@.len() >= invocation_limit(
        run.phase3->0,
    ) {
        Some(FailureKind::InvocationLimit)
    } else {
        verdict(run.baseline_checks@, execution.candidate.checks@)
    }
}

/// What went wrong with an attempt that returned. A failed target check alone does not stop the goal.
pub fn attempt_failure(
    run: &RunRecord,
    execution: &Execution,
    cancelled: bool,
    now: i64,
) -> (r: Option<FailureKind>)
    requires
        run.phase3 is Some,
    ensures
        r == failure_of(*run, *execution, cancelled, now),
{
    if cancelled {
        return Some(interrupted(run, now));
    }
    if !execution.admission_released {
        return Some(FailureKind::InternalState);
    }
    if execution.candidate.status != CandidateStatus::Completed {
        return match execution.failure {
            Some(failure) => Some(failure),
            None => Some(FailureKind::HarnessProcess),
        };
    }
    match &execution.checkpoint {
        Checkpoint::Unsupported => {
            return Some(FailureKind::UnsupportedCheckpoint);
        },
        Checkpoint::Question(_) => {
            if let Some(goal) = &run.phase3 {
                let limit: usize = if goal.max_invocations < 2 {
                    goal.max_invocations as usize
                } else {
                    2
                };
                if run.attempts.len() >= limit {
                    return Some(FailureKind::InvocationLimit);
                }
            }
        },
        Checkpoint::Nothing => {},
    }
    verification_failure(run, &execution.candidate)
}

/// Whether `new` is the run once its last attempt is its delivery: prepared again where a recovery
/// follows, and finished otherwise.
pub open spec fn has_delivered(
    new: RunRecord,
    run: RunRecord,
    failure: Option<FailureKind>,
    refreshed: RunOutcome,
    recovering: bool,
    now: i64,
) -> bool {
    &&& new.phase3 matches Some(p) && contributes(p, new.candidates, run, failure)
    &&& new == (if recovering {
        RunRecord {
            outcome: RunOutcome {
                lifecycle: LifecycleState::Preparing,
                work_result: WorkResult::Pending,
                review: ReviewState::NotRequested,
                phase: RunPhase::Preparing,
                ..refreshed
            },
            candidates: new.candidates,
            phase3: new.phase3,
            ..run
        }
    } else {
        RunRecord {
            status: delivered_status(refreshed.work_result),
            completed_at: Some(now),
            outcome: refreshed,
            candidates: new.candidates,
            phase3: new.phase3,
            ..run
        }
    })
}

/// Makes the last attempt of a run its delivery. Where a recovery follows, the run is prepared again;
/// otherwise it is finished.
pub fn deliver(
    run: &mut RunRecord,
    failure: Option<FailureKind>,
    refreshed: RunOutcome,
    recovering: bool,
    now: i64,
)
    requires
        old(run).phase3 is Some,
        old(run).attempts@.len() > 0,
        old(run).candidates@.len() > 0,
    ensures
        has_delivered(*final(run), *old(run), failure, refreshed, recovering, now),
{
    contribute(run, failure, refreshed);
    if recovering {
        run.outcome.lifecycle = LifecycleState::Preparing;
        run.outcome.work_result = WorkResult::Pending;
        run.outcome.review = ReviewState::NotRequested;
        run.outcome.phase = RunPhase::Preparing;
    } else {
        run.completed_at = Some(now);
        run.status = if refreshed.work_result == WorkResult::Ready {
            RunStatus::ReadyForEvaluation
        } else {
            RunStatus::Failed
        };
    }
}

/// The decision that a recovery starts from: that of the last attempt, where the goal lets another
/// attempt follow.
pub open spec fn recovers_from(run: RunRecord) -> Option<AllocationDecision> {
    match run.phase3 {
        None => None,
        Some(policy) => if policy.no_retry || run.attempts@.len() >= invocation_limit(policy)
            || run.attempts@.len() == 0 {
            None
        } else {
            run.attempts@.last().detail.decision
        },
    }
}

/// Whether a profile is stronger than a tier and meets what the caller fixed.
pub open spec fn stronger(p: ResourceProfile, policy: GoalExecution, tier: ResourceTier) -> bool {
    &&& p.enabled
    &&& rank(p.tier) > rank(tier)
    &&& policy.fixed_harness matches Some(h) ==> h@ == p.harness@
    &&& policy.fixed_model matches Some(m) ==> m@ == p.model@
    &&& policy.fixed_effort matches Some(e) ==> optional_view(p.effort) == Some(e@)
}

/// Whether one profile is tried before another: the lower tier first, and the earlier of one tier.
pub open spec fn tried_before(profiles: Seq<ResourceProfile>, a: int, b: int) -> bool {
    rank(profiles[a].tier) < rank(profiles[b].tier) || rank(profiles[a].tier) == rank(
        profiles[b].tier,
    ) && a < b
}

/// Whether `order` holds the profiles that a recovery may run on, in the order in which they are tried.
pub open spec fn recovery_order(
    order: Seq<usize>,
    profiles: Seq<ResourceProfile>,
    policy: GoalExecution,
    tier: ResourceTier,
) -> bool {
    &&& forall|i: int|
        0 <= i < order.len() ==> (#[trigger] order[i]) < profiles.len() && stronger(
            profiles[order[i] as int],
            policy,
            tier,
        )
    &&& forall|i: int, j: int|
        0 <= i < j < order.len() ==> tried_before(
            profiles,
            #[trigger] order[i] as int,
            #[trigger] order[j] as int,
        )
    &&& forall|k: int|
        0 <= k < profiles.len() && stronger(#[trigger] profiles[k], policy, tier) ==> exists|i: int|
            0 <= i < order.len() && #[trigger] order[i] == k
}

fn meets(fixed: &Option<String>, value: &str) -> (r: bool)
    ensures
        r == (*fixed matches Some(text) ==> text@ == value@),
{
    match fixed {
        Some(text) => same(text.as_str(), value),
        None => true,
    }
}

fn is_stronger(p: &ResourceProfile, policy: &GoalExecution, tier: ResourceTier) -> (r: bool)
    ensures
        r == stronger(*p, *policy, tier),
{
    let effort = match &policy.fixed_effort {
        Some(effort) => same_optional(&p.effort, Some(effort.as_str())),
        None => true,
    };
    p.enabled && tier_rank(&p.tier) > tier_rank(&tier) && meets(
        &policy.fixed_harness,
        p.harness.as_str(),
    ) && meets(&policy.fixed_model, p.model.as_str()) && effort
}

/// The profiles that a recovery may run on, in the order in which they are tried.
pub fn recovery_profiles(
    profiles: &Vec<ResourceProfile>,
    policy: &GoalExecution,
    tier: ResourceTier,
) -> (r: Vec<usize>)
    ensures
        recovery_order(r@, profiles@, *policy, tier),
{
    let mut order: Vec<usize> = Vec::new();
    let mut level: u8 = 0;
    while level < 3
        invariant
            level <= 3,
            forall|i: int|
                0 <= i < order@.len() ==> (#[trigger] order@[i]) < profiles@.len() && stronger(
                    profiles@[order@[i] as int],
                    *policy,
                    tier,
                ) && rank(profiles@[order@[i] as int].tier) < level,
            forall|i: int, j: int|
                0 <= i < j < order@.len() ==> tried_before(
                    profiles@,
                    #[trigger] order@[i] as int,
                    #[trigger] order@[j] as int,
                ),
            forall|k: int|
                0 <= k < profiles@.len() && stronger(#[trigger] profiles@[k], *policy, tier) && rank(
                    profiles@[k].tier,
                ) < level ==> exists|i: int| 0 <= i < order@.len() && #[trigger] order@[i] == k,
        decreases 3 - level,
    {
        let mut n: usize = 0;
        while n < profiles.len()
            invariant
                n <= profiles.len(),
                level < 3,
                forall|i: int|
                    0 <= i < order@.len() ==> (#[trigger] order@[i]) < profiles@.len() && stronger(
                        profiles@[order@[i] as int],
                        *policy,
                        tier,
                    ) && (rank(profiles@[order@[i] as int].tier) < level || rank(
                        profiles@[order@[i] as int].tier,
                    ) == level && order@[i] < n),
                forall|i: int, j: int|
                    0 <= i < j < order@.len() ==> tried_before(
                        profiles@,
                        #[trigger] order@[i] as int,
                        #[trigger] order@[j] as int,
                    ),
                forall|k: int|
                    0 <= k < profiles@.len() && stronger(#[trigger] profiles@[k], *policy, tier) && (
                    rank(profiles@[k].tier) < level || rank(profiles@[k].tier) == level && k < n)
                        ==> exists|i: int| 0 <= i < order@.len() && #[trigger] order@[i] == k,
            decreases profiles.len() - n,
        {
            let ghost earlier = order@;
            if tier_rank(&profiles[n].tier) == level && is_stronger(&profiles[n], policy, tier) {
                order.push(n);
                assert(order@[earlier.len() as int] == n);
                assert forall|k: int|
                    0 <= k < profiles@.len() && stronger(#[trigger] profiles@[k], *policy, tier) && (
                    rank(profiles@[k].tier) < level || rank(profiles@[k].tier) == level && k < n
                        + 1) implies exists|i: int|
                    0 <= i < order@.len() && #[trigger] order@[i] == k by {
                    if k != n {
                        let i = choose|i: int| 0 <= i < earlier.len() && #[trigger] earlier[i] == k;
                        assert(order@[i] == k);
                    }
                }
            }
            n += 1;
        }
        level += 1;
    }
    assert forall|k: int|
        0 <= k < profiles@.len() && stronger(#[trigger] profiles@[k], *policy, tier) implies exists|
        i: int,
    | 0 <= i < order@.len() && #[trigger] order@[i] == k by {
        assert(rank(profiles@[k].tier) < 3);
    }
    order
}

/// Whether a recovery found for a weaker tier is used: only one that is stronger.
pub open spec fn is_recovery(d: Option<AllocationDecision>, tier: ResourceTier) -> bool {
    d matches Some(decision) && rank(decision.selected.tier) > rank(tier)
}

/// The first decision from `from` on that a recovery uses.
pub open spec fn first_recovery(
    available: Seq<Option<AllocationDecision>>,
    tier: ResourceTier,
    from: int,
) -> Option<int>
    decreases available.len() - from,
{
    if from < 0 || from >= available.len() {
        None
    } else if is_recovery(available[from], tier) {
        Some(from)
    } else {
        first_recovery(available, tier, from + 1)
    }
}

/// A decision as a recovery states it.
pub open spec fn relabeled(new: AllocationDecision, was: AllocationDecision) -> bool {
    &&& new == (AllocationDecision {
        policy_version: new.policy_version,
        reason: new.reason,
        ..was
    })
    &&& new.policy_version@ == "bounded-recovery-v1"@
    &&& new.reason@
        == "One stronger recovery after a target check that passed on the original baseline failed after implementation."@
}

/// Whether profiles are the same, one for one.
pub open spec fn same_profiles(a: Seq<ResourceProfile>, b: Seq<ResourceProfile>) -> bool {
    &&& a.len() == b.len()
    &&& forall|i: int| 0 <= i < a.len() ==> same_profile(#[trigger] a[i], b[i])
}

/// Whether `d` is what asking for a profile's model and effort selects among those of its harness.
pub open spec fn asking_gives(
    d: AllocationDecision,
    profiles: Seq<ResourceProfile>,
    p: ResourceProfile,
    policy: GoalExecution,
    features: TaskFeatures,
    backend: Seq<char>,
) -> bool {
    exists|constrained: Seq<ResourceProfile>| #[trigger]
        same_profiles(constrained, under_harness(profiles, p.harness@)) && selection_result(
            Ok(d),
            constrained,
            features,
            backend,
            Some(p.model@),
            optional_view(p.effort),
            optional_view(policy.fixed_model),
            optional_view(policy.fixed_effort),
            Seq::empty(),
            None,
        )
}

/// Whether asking for a profile's model and effort selects nothing among those of its harness.
pub open spec fn asking_fails(
    profiles: Seq<ResourceProfile>,
    p: ResourceProfile,
    policy: GoalExecution,
    features: TaskFeatures,
    backend: Seq<char>,
) -> bool {
    exists|constrained: Seq<ResourceProfile>, message: String|
        same_profiles(constrained, under_harness(profiles, p.harness@))
            && #[trigger] selection_result(
            Err(message),
            constrained,
            features,
            backend,
            Some(p.model@),
            optional_view(p.effort),
            optional_view(policy.fixed_model),
            optional_view(policy.fixed_effort),
            Seq::empty(),
            None,
        )
}

fn of_harness(profiles: &Vec<ResourceProfile>, harness: &str) -> (r: Vec<ResourceProfile>)
    ensures
        same_profiles(r@, under_harness(profiles@, harness@)),
{
    let mut out: Vec<ResourceProfile> = Vec::new();
    let ghost wanted = |p: ResourceProfile| p.harness@ == harness@;
    let mut i: usize = 0;
    assert(profiles@.take(0).filter(wanted) =~= Seq::empty()) by {
        reveal(Seq::filter);
    }
    while i < profiles.len()
        invariant
            i <= profiles.len(),
            wanted == (|p: ResourceProfile| p.harness@ == harness@),
            same_profiles(out@, profiles@.take(i as int).filter(wanted)),
        decreases profiles.len() - i,
    {
        let ghost shorter = profiles@.take(i as int);
        proof {
            assert(profiles@.take(i as int + 1) =~= shorter.push(profiles@[i as int]));
            reveal(Seq::filter);
            assert(shorter.push(profiles@[i as int]).drop_last() =~= shorter);
        }
        if same(profiles[i].harness.as_str(), harness) {
            out.push(profiles[i].copied());
        }
        i += 1;
    }
    assert(profiles@.take(profiles@.len() as int) =~= profiles@);
    out
}

/// What a recovery that finds every suitable resource blocked is bound to: the selection for the first
/// profile that gives one, so that admission records the specific cause.
fn blocked_route(
    resources: &ResourceConfig,
    order: &Vec<usize>,
    policy: &GoalExecution,
    features: &TaskFeatures,
    backend: &str,
) -> (r: Option<AllocationDecision>)
    requires
        forall|i: int| 0 <= i < order@.len() ==> (#[trigger] order@[i]) < resources.profiles@.len(),
    ensures
        blocked_on(r, resources.profiles@, order@, *policy, *features, backend@),
{
    let profiles = &resources.profiles;
    let mut i: usize = 0;
    while i < order.len()
        invariant
            i <= order.len(),
            profiles@ == resources.profiles@,
            forall|k: int| 0 <= k < order@.len() ==> (#[trigger] order@[k]) < profiles@.len(),
            forall|k: int|
                0 <= k < i ==> asking_fails(
                    profiles@,
                    profiles@[#[trigger] order@[k] as int],
                    *policy,
                    *features,
                    backend@,
                ),
        decreases order.len() - i,
    {
        let p = &profiles[order[i]];
        let constrained = ResourceConfig {
            version: resources.version,
            allocation_enabled: resources.allocation_enabled,
            profiles: of_harness(profiles, p.harness.as_str()),
        };
        let effort = match &p.effort {
            Some(effort) => Some(effort.as_str()),
            None => None,
        };
        let fixed_model = match &policy.fixed_model {
            Some(model) => Some(model.as_str()),
            None => None,
        };
        let fixed_effort = match &policy.fixed_effort {
            Some(effort) => Some(effort.as_str()),
            None => None,
        };
        match select_resource(
            &constrained,
            features,
            backend,
            Some(p.model.as_str()),
            effort,
            fixed_model,
            fixed_effort,
        ) {
            Ok(d) => {
                assert(asking_gives(
                    d,
                    profiles@,
                    profiles@[order@[i as int] as int],
                    *policy,
                    *features,
                    backend@,
                ));
                return Some(d);
            },
            Err(message) => {
                assert(asking_fails(
                    profiles@,
                    profiles@[order@[i as int] as int],
                    *policy,
                    *features,
                    backend@,
                ));
            },
        }
        i += 1;
    }
    None
}

/// Whether `r` is the selection for the first of the profiles that gives one.
pub open spec fn blocked_on(
    r: Option<AllocationDecision>,
    profiles: Seq<ResourceProfile>,
    order: Seq<usize>,
    policy: GoalExecution,
    features: TaskFeatures,
    backend: Seq<char>,
) -> bool {
    match r {
        Some(d) => exists|i: int|
            {
                &&& 0 <= i < order.len()
                &&& asking_gives(
                    d,
                    profiles,
                    profiles[#[trigger] order[i] as int],
                    policy,
                    features,
                    backend,
                )
                &&& forall|k: int|
                    0 <= k < i ==> asking_fails(
                        profiles,
                        profiles[#[trigger] order[k] as int],
                        policy,
                        features,
                        backend,
                    )
            },
        None => forall|k: int|
            0 <= k < order.len() ==> asking_fails(
                profiles,
                profiles[#[trigger] order[k] as int],
                policy,
                features,
                backend,
            ),
    }
}

/// Whether `r` is the route of a recovery.
pub open spec fn recovery(
    r: Option<AllocationDecision>,
    run: RunRecord,
    profiles: Seq<ResourceProfile>,
    available: Seq<Option<AllocationDecision>>,
) -> bool {
    match recovers_from(run) {
        None => r is None,
        Some(previous) => match first_recovery(available, previous.selected.tier, 0) {
            Some(i) => r matches Some(d) && relabeled(d, available[i]->0),
            None => exists|order: Seq<usize>| #[trigger]
                recovery_order(order, profiles, run.phase3->0, previous.selected.tier) && blocked_on(
                    r,
                    profiles,
                    order,
                    run.phase3->0,
                    previous.task_features,
                    run.execution_backend@,
                ),
        },
    }
}

/// The route of the one stronger recovery that a goal may have. `available` holds what could be had for
/// the profiles of [`recovery_profiles`], in their order, as far as they were tried; where none of it is
/// stronger, the recovery is bound to the first profile that can be selected at all.
pub fn recovery_route(
    run: &RunRecord,
    resources: &ResourceConfig,
    available: Vec<Option<AllocationDecision>>,
) -> (r: Option<AllocationDecision>)
    ensures
        recovery(r, *run, resources.profiles@, available@),
{
    let policy = match &run.phase3 {
        None => {
            return None;
        },
        Some(policy) => policy,
    };
    let limit: usize = if policy.max_invocations < 2 {
        policy.max_invocations as usize
    } else {
        2
    };
    let n = run.attempts.len();
    if policy.no_retry || n >= limit || n == 0 {
        return None;
    }
    let previous = match &run.attempts[n - 1].detail.decision {
        None => {
            return None;
        },
        Some(previous) => previous,
    };
    let tier = previous.selected.tier;
    let mut offers = available;
    let mut i: usize = 0;
    while i < offers.len()
        invariant
            i <= offers.len(),
            offers@ == available@,
            recovers_from(*run) == Some(*previous),
            tier == previous.selected.tier,
            first_recovery(available@, tier, 0) == first_recovery(available@, tier, i as int),
        decreases offers.len() - i,
    {
        let stronger = match &offers[i] {
            Some(d) => tier_rank(&d.selected.tier) > tier_rank(&tier),
            None => false,
        };
        if stronger {
            if let Some(mut decision) = offers.swap_remove(i) {
                decision.policy_version = "bounded-recovery-v1".to_owned();
                decision.reason =
                    "One stronger recovery after a target check that passed on the original baseline failed after implementation.".to_owned();
                return Some(decision);
            }
            return None;
        }
        i += 1;
    }
    let order = recovery_profiles(&resources.profiles, policy, tier);
    blocked_route(
        resources,
        &order,
        policy,
        &previous.task_features,
        run.execution_backend.as_str(),
    )
}

/// A goal recovers at most once, and only where it lets another attempt follow.
pub proof fn recovery_is_bounded(
    r: Option<AllocationDecision>,
    run: RunRecord,
    profiles: Seq<ResourceProfile>,
    available: Seq<Option<AllocationDecision>>,
)
    requires
        recovery(r, run, profiles, available),
        r is Some,
    ensures
        run.phase3 matches Some(p) && !p.no_retry && run.attempts@.len() < p.max_invocations,
        run.attempts@.len() == 1,
{
}

/// An available recovery runs on a stronger resource than the attempt before it.
pub proof fn available_recovery_is_stronger(
    r: Option<AllocationDecision>,
    run: RunRecord,
    profiles: Seq<ResourceProfile>,
    available: Seq<Option<AllocationDecision>>,
)
    requires
        recovery(r, run, profiles, available),
        recovers_from(run) is Some,
        first_recovery(available, recovers_from(run)->0.selected.tier, 0) is Some,
    ensures
        r matches Some(d) && rank(d.selected.tier) > rank(recovers_from(run)->0.selected.tier),
{
    first_recovery_is_one(available, recovers_from(run)->0.selected.tier, 0);
}

proof fn first_recovery_is_one(
    available: Seq<Option<AllocationDecision>>,
    tier: ResourceTier,
    from: int,
)
    ensures
        first_recovery(available, tier, from) matches Some(i) ==> 0 <= i < available.len()
            && is_recovery(available[i], tier),
    decreases available.len() - from,
{
    if 0 <= from < available.len() {
        first_recovery_is_one(available, tier, from + 1);
    }
}

/// A run whose checkpoint was recovered: it waits for its pending question, or is prepared again.
pub open spec fn after_recovery(run: RunRecord, supervisor: ProcessIdentity) -> RunRecord {
    let pending = waiting_question(run) is Some;
    RunRecord {
        status: RunStatus::Preparing,
        completed_at: None,
        outcome: RunOutcome {
            lifecycle: (if pending {
                LifecycleState::Waiting
            } else {
                LifecycleState::Preparing
            }),
            phase: RunPhase::Preparing,
            work_result: WorkResult::Pending,
            waiting_on: (if pending {
                WaitingOn::Human
            } else {
                WaitingOn::Nothing
            }),
            ..run.outcome
        },
        phase3: Some(
            GoalExecution { supervisor: Some(supervisor), failure: None, ..run.phase3->0 },
        ),
        ..run
    }
}

/// Takes over a checkpoint whose owner went away, and says whether it still waits for its question. An
/// interrupted invocation is never replayed.
pub fn recover_checkpoint(run: &mut RunRecord, supervisor: ProcessIdentity) -> (r: bool)
    requires
        old(run).phase3 is Some,
    ensures
        r == (waiting_question(*old(run)) is Some),
        *final(run) == after_recovery(*old(run), supervisor),
{
    let mut pending = false;
    if let Some(policy) = &mut run.phase3 {
        let n = policy.questions.len();
        pending = n > 0 && policy.questions[n - 1].state == QuestionState::Pending;
        policy.supervisor = Some(supervisor);
        policy.failure = None;
    }
    run.outcome.lifecycle = if pending {
        LifecycleState::Waiting
    } else {
        LifecycleState::Preparing
    };
    run.outcome.phase = RunPhase::Preparing;
    run.outcome.work_result = WorkResult::Pending;
    run.outcome.waiting_on = if pending {
        WaitingOn::Human
    } else {
        WaitingOn::Nothing
    };
    run.status = RunStatus::Preparing;
    run.completed_at = None;
    pending
}

/// Answers a pending question, for the machine identity `actor` where one acts for the owner.
pub fn answer_question(
    run: &mut RunRecord,
    command: &QuestionCommand,
    answer: String,
    directory_uid: u32,
    uid: u32,
    actor: Option<String>,
    supervisor: ProcessIdentity,
    now: i64,
) -> (r: Result<(), String>)
    requires
        questions_open_ended(*old(run)),
    ensures
        match question_refusal(*old(run), *command, Some(answer@), directory_uid, uid) {
            Some(reason) => r matches Err(e) && e@ == reason && *final(run) == *old(run),
            None => r is Ok && resolves(
                *final(run),
                *old(run),
                *command,
                Some(answer),
                uid,
                actor,
                supervisor,
                now,
            ),
        },
{
    resolve(run, command, Some(answer), directory_uid, uid, actor, supervisor, now)
}

/// Cancels a pending question, and with it the run.
pub fn cancel_question(
    run: &mut RunRecord,
    command: &QuestionCommand,
    directory_uid: u32,
    uid: u32,
    actor: Option<String>,
    supervisor: ProcessIdentity,
    now: i64,
) -> (r: Result<(), String>)
    requires
        questions_open_ended(*old(run)),
    ensures
        match question_refusal(*old(run), *command, None, directory_uid, uid) {
            Some(reason) => r matches Err(e) && e@ == reason && *final(run) == *old(run),
            None => r is Ok && resolves(
                *final(run),
                *old(run),
                *command,
                None,
                uid,
                actor,
                supervisor,
                now,
            ),
        },
{
    resolve(run, command, None, directory_uid, uid, actor, supervisor, now)
}

/// What is said when an attempt stops its goal.
pub open spec fn stop_text(error: Option<String>) -> Seq<char> {
    match error {
        Some(text) => text@,
        None => "attempt did not safely complete"@,
    }
}

/// What follows an attempt that returned: any failure but that of a target check stops the goal, a
/// question is put, a failed target check lets a recovery be looked for, and anything else is delivered.
pub open spec fn follows(
    turn: Turn,
    run: RunRecord,
    execution: Execution,
    cancelled: bool,
    now: i64,
) -> bool {
    let failure = failure_of(run, execution, cancelled, now);
    if failure is Some && failure != Some(FailureKind::TargetVerification) {
        turn matches Turn::Stop(f, text) && Some(f) == failure && text@ == stop_text(
            execution.candidate.error,
        )
    } else {
        match execution.checkpoint {
            Checkpoint::Question(report) => turn == Turn::Ask(report),
            _ => turn == (if failure is Some {
                Turn::Recover
            } else {
                Turn::Deliver
            }),
        }
    }
}

/// What follows an attempt that returned: any failure but that of a target check stops the goal, a
/// question is put, a failed target check lets a recovery be looked for, and anything else is delivered.
pub fn next_turn(run: &RunRecord, execution: Execution, cancelled: bool, now: i64) -> (r: Turn)
    requires
        run.phase3 is Some,
    ensures
        follows(r, *run, execution, cancelled, now),
{
    let failure = attempt_failure(run, &execution, cancelled, now);
    let target = match failure {
        Some(FailureKind::TargetVerification) => true,
        Some(other) => {
            let text = match &execution.candidate.error {
                Some(error) => error.clone(),
                None => "attempt did not safely complete".to_owned(),
            };
            return Turn::Stop(other, text);
        },
        None => false,
    };
    match execution.checkpoint {
        Checkpoint::Question(report) => Turn::Ask(report),
        _ => {
            if target {
                Turn::Recover
            } else {
                Turn::Deliver
            }
        },
    }
}

/// A stronger resource is looked for only after an attempt that completed and gave back its admission, and
/// whose checks blame the target; never after a fault of the harness or of the checks themselves.
pub proof fn recovery_follows_only_failed_targets(
    run: RunRecord,
    execution: Execution,
    cancelled: bool,
    now: i64,
)
    requires
        run.phase3 is Some,
        failure_of(run, execution, cancelled, now) == Some(FailureKind::TargetVerification),
        execution.failure != Some(FailureKind::TargetVerification),
        !cancelled,
    ensures
        execution.admission_released,
        execution.candidate.status == CandidateStatus::Completed,
        verdict(run.baseline_checks@, execution.candidate.checks@) == Some(
            FailureKind::TargetVerification,
        ),
{
}

/// Why work that was not admitted stops, and whether the engine itself failed. `refusal` is the error
/// of the admission; without one, capacity deferred it.
pub fn stop_unadmitted(
    run: &mut RunRecord,
    cancelled: bool,
    refusal: Option<String>,
    now: i64,
) -> (r: Result<String, String>)
    requires
        old(run).phase3 is Some,
    ensures
        ({
            let failure = unadmitted(*old(run), cancelled, refusal is None, now);
            let message = match refusal {
                Some(text) => text@,
                None => "capacity deferred"@,
            };
            &&& is_stopped(*final(run), *old(run), failure, now)
            &&& match r {
                Ok(text) => text@ == message && failure != FailureKind::InternalState,
                Err(text) => text@ == message && failure == FailureKind::InternalState,
            }
        }),
{
    let failure = admission_failure(run, cancelled, refusal.is_none(), now);
    stop(run, failure, now);
    let message = match refusal {
        Some(text) => text,
        None => "capacity deferred".to_owned(),
    };
    if failure == FailureKind::InternalState {
        Err(message)
    } else {
        Ok(message)
    }
}

/// The last look before an admitted attempt is handed to its agent: cancelled work is stopped there.
pub fn hand_off(run: &mut RunRecord, cancelled: bool, now: i64) -> (r: Result<(), String>)
    requires
        old(run).phase3 is Some,
    ensures
        if cancelled {
            &&& r matches Err(e) && e@ == "cancelled before handoff"@
            &&& is_stopped(*final(run), *old(run), interruption(*old(run), now), now)
        } else {
            r is Ok && *final(run) == *old(run)
        },
{
    if !cancelled {
        return Ok(());
    }
    let failure = interrupted(run, now);
    stop(run, failure, now);
    Err("cancelled before handoff".to_owned())
}

/// Whether `new` is the run once it was recorded what came of its last attempt, and under which admission.
pub open spec fn has_recorded(
    new: RunRecord,
    run: RunRecord,
    candidate: CandidateRecord,
    failure: Option<FailureKind>,
) -> bool {
    let was = run.attempts@.last();
    let last = new.attempts@.last();
    &&& new == (RunRecord { attempts: new.attempts, ..run })
    &&& new.attempts@.len() == run.attempts@.len()
    &&& new.attempts@.drop_last() == run.attempts@.drop_last()
    &&& last == (AttemptRecord {
        detail: AttemptDetail {
            result: last.detail.result,
            admission: run.admission,
            failure,
            ..was.detail
        },
        ..was
    })
    &&& last.detail.result matches Some(c) && same_candidate(c, candidate)
}

/// Records what came of the last attempt of a run, and under which admission.
pub fn finish_attempt(run: &mut RunRecord, candidate: &CandidateRecord, failure: Option<FailureKind>)
    requires
        old(run).attempts@.len() > 0,
    ensures
        has_recorded(*final(run), *old(run), *candidate, failure),
{
    let n = run.attempts.len();
    let admission = match &run.admission {
        Some(a) => Some(
            AdmissionSummary { attempt_id: a.attempt_id.clone(), reconciling: a.reconciling },
        ),
        None => None,
    };
    let attempt = &mut run.attempts[n - 1];
    attempt.detail.result = Some(candidate.copied());
    attempt.detail.admission = admission;
    attempt.detail.failure = failure;
    assert(final(run).attempts@.drop_last() =~= old(run).attempts@.drop_last());
}

/// Takes an attempt that returned into its run: its candidate, what became of it, and what follows.
/// `refreshed` is what the candidate makes of the outcome.
pub fn take_attempt(
    run: &mut RunRecord,
    execution: Execution,
    cancelled: bool,
    refreshed: RunOutcome,
    now: i64,
) -> (r: Returned)
    requires
        old(run).phase3 is Some,
        old(run).attempts@.len() > 0,
    ensures
        r.failure == failure_of(*old(run), execution, cancelled, now),
        follows(r.turn, *old(run), execution, cancelled, now),
        has_recorded(
            *final(run),
            after_return(*old(run), final(run).candidates, refreshed),
            execution.candidate,
            r.failure,
        ),
        final(run).candidates@.len() == 1,
        same_candidate(final(run).candidates@[0], execution.candidate),
{
    let failure = attempt_failure(run, &execution, cancelled, now);
    take_return(run, &execution.candidate, refreshed);
    finish_attempt(run, &execution.candidate, failure);
    let turn = next_turn(run, execution, cancelled, now);
    Returned { failure, turn }
}

/// Does what follows an attempt that returned. `recovering` says whether a stronger resource was found,
/// `id` names the question that may be put, `refreshed` is what the delivery makes of the outcome.
pub fn conclude(
    run: &mut RunRecord,
    returned: Returned,
    refreshed: RunOutcome,
    recovering: bool,
    id: &str,
    now: i64,
)
    requires
        old(run).phase3 is Some,
        old(run).attempts@.len() > 0,
        old(run).candidates@.len() > 0,
    ensures
        match returned.turn {
            Turn::Stop(failure, _) => is_stopped(*final(run), *old(run), failure, now),
            Turn::Ask(report) => has_asked(*final(run), *old(run), report, id@, now),
            Turn::Recover => has_delivered(
                *final(run),
                *old(run),
                returned.failure,
                refreshed,
                recovering,
                now,
            ),
            Turn::Deliver => has_delivered(
                *final(run),
                *old(run),
                returned.failure,
                refreshed,
                false,
                now,
            ),
        },
{
    match returned.turn {
        Turn::Stop(failure, _) => stop(run, failure, now),
        Turn::Ask(report) => ask(run, report, id, now),
        Turn::Recover => deliver(run, returned.failure, refreshed, recovering, now),
        Turn::Deliver => deliver(run, returned.failure, refreshed, false, now),
    }
}

} // verus!
