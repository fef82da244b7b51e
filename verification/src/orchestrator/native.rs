//! The native engine: one agent attempt per drive, in an isolated workspace made from the run's
//! snapshot, with configured verification and clarification questions. A run that is bound to a
//! configured profile also carries its funding contract.

use vstd::prelude::*;

use crate::reviewer::{lossy, lossy_text};

use crate::text::{
    blank, byte_len, bytes_in, copy_optional, decimal, decimal_of, fit, fitting, is_blank,
    optional_str, optional_view, same, same_optional, texts,
};
use crate::record::{
    AttemptDetail, AttemptRecord, CandidateRecord, CandidateStatus, CheckResult, CheckStatus,
    CheckpointReport, Clarification, Decision, DiffStats, FailureKind, GoalExecution,
    LifecycleState, QuestionState, ReviewState, RunOutcome, RunPhase, RunRecord, RunStatus,
    Validity, VerificationState, WaitingOn, WorkResult, behind, same_candidate,
};
use crate::router::{AllocationDecision, ResourceChoice, ResourceProfile};
use crate::process::{IdentityState, ProcessIdentity};

verus! {

/// Whether a run is expected to be executing.
pub open spec fn executes(run: RunRecord) -> bool {
    &&& run.phase3 is Some
    &&& run.outcome.lifecycle != LifecycleState::Finished
    &&& run.outcome.waiting_on != WaitingOn::Human
    &&& run.outcome.work_result != WorkResult::Cancelled
    &&& run.outcome.review != ReviewState::Rejected
}

/// Whether a run is expected to be executing.
pub fn expects_execution(run: &RunRecord) -> (r: bool)
    ensures
        r == executes(*run),
{
    run.phase3.is_some() && run.outcome.lifecycle != LifecycleState::Finished
        && run.outcome.waiting_on != WaitingOn::Human && run.outcome.work_result
        != WorkResult::Cancelled && run.outcome.review != ReviewState::Rejected
}

/// What a finished run waits for: reconciliation while an agent it launched may still be running.
pub open spec fn leftover(alive: bool) -> WaitingOn {
    if alive {
        WaitingOn::Reconciliation
    } else {
        WaitingOn::Nothing
    }
}

/// A run after an interruption. A failure that was recorded before stays.
pub open spec fn after_interruption(run: RunRecord, alive: bool, now: i64) -> RunRecord {
    RunRecord {
        status: RunStatus::Interrupted,
        completed_at: Some(now),
        outcome: RunOutcome {
            lifecycle: LifecycleState::Finished,
            work_result: WorkResult::Interrupted,
            phase: RunPhase::Finished,
            waiting_on: leftover(alive),
            ..run.outcome
        },
        phase3: Some(
            GoalExecution {
                failure: Some(
                    match run.phase3->0.failure {
                        Some(failure) => failure,
                        None => FailureKind::InternalState,
                    },
                ),
                ..run.phase3->0
            },
        ),
        ..run
    }
}

/// Interrupts a run. `alive` says whether an agent that it launched may still be running.
pub fn interrupt_run(run: &mut RunRecord, alive: bool, now: i64)
    requires
        old(run).phase3 is Some,
    ensures
        *final(run) == after_interruption(*old(run), alive, now),
{
    run.status = RunStatus::Interrupted;
    run.completed_at = Some(now);
    run.outcome.lifecycle = LifecycleState::Finished;
    run.outcome.work_result = WorkResult::Interrupted;
    run.outcome.phase = RunPhase::Finished;
    run.outcome.waiting_on = if alive {
        WaitingOn::Reconciliation
    } else {
        WaitingOn::Nothing
    };
    if let Some(policy) = &mut run.phase3 {
        if policy.failure.is_none() {
            policy.failure = Some(FailureKind::InternalState);
        }
    }
}

/// Interrupts a run whose work returned an error while it was expected to be executing, and says
/// why; a run that is no longer expected to be executing keeps its evidence.
pub fn finish_error(run: &mut RunRecord, error: &str, alive: bool, now: i64) -> (r: Option<String>)
    ensures
        if executes(*old(run)) {
            &&& *final(run) == after_interruption(*old(run), alive, now)
            &&& r matches Some(reason) && reason@ == "foreground execution stopped: "@ + error@
        } else {
            *final(run) == *old(run) && r is None
        },
{
    if !expects_execution(run) {
        return None;
    }
    interrupt_run(run, alive, now);
    let mut reason = "foreground execution stopped: ".to_owned();
    reason.push_str(error);
    Some(reason)
}

/// Whether every attempt of a run has returned, and there was one.
pub open spec fn all_returned(attempts: Seq<AttemptRecord>) -> bool {
    attempts.len() > 0 && forall|i: int|
        0 <= i < attempts.len() ==> (#[trigger] attempts[i]).completed_at is Some
}

/// Whether a run was abandoned: it is expected to be executing, its recorded supervisor is gone, every
/// attempt has returned and no agent may still be running. A run without a recorded supervisor is
/// never presumed abandoned.
pub open spec fn abandoned(run: RunRecord, supervisor: Option<IdentityState>, alive: bool) -> bool {
    &&& executes(run)
    &&& supervisor == Some(IdentityState::Gone) || supervisor == Some(IdentityState::Reused)
    &&& all_returned(run.attempts@)
    &&& !alive
}

/// Interrupts a run that was abandoned. `supervisor` is the state of its recorded supervisor.
pub fn repair_abandoned(
    run: &mut RunRecord,
    supervisor: Option<IdentityState>,
    alive: bool,
    now: i64,
) -> (r: bool)
    ensures
        r == abandoned(*old(run), supervisor, alive),
        *final(run) == (if r {
            after_interruption(*old(run), false, now)
        } else {
            *old(run)
        }),
{
    if !expects_execution(run) || alive {
        return false;
    }
    match supervisor {
        Some(IdentityState::Gone) => {},
        Some(IdentityState::Reused) => {},
        _ => {
            return false;
        },
    }
    if run.attempts.len() == 0 {
        return false;
    }
    let mut i: usize = 0;
    while i < run.attempts.len()
        invariant
            i <= run.attempts.len(),
            *run == *old(run),
            forall|k: int| 0 <= k < i ==> (#[trigger] run.attempts@[k]).completed_at is Some,
        decreases run.attempts.len() - i,
    {
        if run.attempts[i].completed_at.is_none() {
            assert(run.attempts@[i as int].completed_at is None);
            return false;
        }
        i += 1;
    }
    interrupt_run(run, false, now);
    true
}

/// The status of a run that a failure stopped.
pub open spec fn stopped_status(failure: FailureKind) -> RunStatus {
    match failure {
        FailureKind::CapacityAdmission => RunStatus::Deferred,
        FailureKind::StaleWork => RunStatus::Interrupted,
        _ => RunStatus::Failed,
    }
}

/// The result of work that a failure stopped.
pub open spec fn stopped_result(failure: FailureKind) -> WorkResult {
    match failure {
        FailureKind::Cancelled => WorkResult::Cancelled,
        FailureKind::StaleWork => WorkResult::Cancelled,
        FailureKind::CapacityAdmission => WorkResult::Deferred,
        _ => WorkResult::Failed,
    }
}

/// Whether the last attempt has not returned.
pub open spec fn unreturned(attempts: Seq<AttemptRecord>) -> bool {
    attempts.len() > 0 && attempts.last().completed_at is None
}

/// An unreturned attempt after its run was stopped.
pub open spec fn closed_attempt(
    new: AttemptRecord,
    was: AttemptRecord,
    failure: FailureKind,
    launched: bool,
    now: i64,
) -> bool {
    &&& new == (AttemptRecord {
        completed_at: Some(now),
        outcome: new.outcome,
        detail: AttemptDetail { failure: Some(failure), ..was.detail },
        ..was
    })
    &&& new.outcome@ == (if launched {
        "interrupted"@
    } else {
        "not_launched"@
    })
}

/// A run after a failure stopped it, but for its attempts.
pub open spec fn after_stop(
    run: RunRecord,
    attempts: Vec<AttemptRecord>,
    failure: FailureKind,
    alive: bool,
    now: i64,
) -> RunRecord {
    RunRecord {
        status: stopped_status(failure),
        completed_at: Some(now),
        outcome: RunOutcome {
            lifecycle: LifecycleState::Finished,
            work_result: stopped_result(failure),
            phase: RunPhase::Finished,
            review: ReviewState::NotRequested,
            waiting_on: leftover(alive),
            ..run.outcome
        },
        phase3: Some(GoalExecution { failure: Some(failure), ..run.phase3->0 }),
        attempts,
        ..run
    }
}

/// Whether `new` is the run once it was stopped.
pub open spec fn is_stopped(
    new: RunRecord,
    run: RunRecord,
    failure: FailureKind,
    alive: bool,
    launched: bool,
    now: i64,
) -> bool {
    &&& new == after_stop(run, new.attempts, failure, alive, now)
    &&& new.attempts@.len() == run.attempts@.len()
    &&& if unreturned(run.attempts@) {
        &&& new.attempts@.drop_last() == run.attempts@.drop_last()
        &&& closed_attempt(new.attempts@.last(), run.attempts@.last(), failure, launched, now)
    } else {
        new.attempts == run.attempts
    }
}

/// Stops a run. `alive` says whether an agent that it launched may still be running, `launched`
/// whether one was launched for its last attempt.
pub fn stop(run: &mut RunRecord, failure: FailureKind, alive: bool, launched: bool, now: i64)
    requires
        old(run).phase3 is Some,
    ensures
        is_stopped(*final(run), *old(run), failure, alive, launched, now),
{
    if let Some(policy) = &mut run.phase3 {
        policy.failure = Some(failure);
    }
    run.completed_at = Some(now);
    run.status = match failure {
        FailureKind::CapacityAdmission => RunStatus::Deferred,
        FailureKind::StaleWork => RunStatus::Interrupted,
        _ => RunStatus::Failed,
    };
    run.outcome.lifecycle = LifecycleState::Finished;
    run.outcome.work_result = match failure {
        FailureKind::Cancelled => WorkResult::Cancelled,
        FailureKind::StaleWork => WorkResult::Cancelled,
        FailureKind::CapacityAdmission => WorkResult::Deferred,
        _ => WorkResult::Failed,
    };
    run.outcome.phase = RunPhase::Finished;
    run.outcome.review = ReviewState::NotRequested;
    run.outcome.waiting_on = if alive {
        WaitingOn::Reconciliation
    } else {
        WaitingOn::Nothing
    };
    let n = run.attempts.len();
    if n > 0 && run.attempts[n - 1].completed_at.is_none() {
        let attempt = &mut run.attempts[n - 1];
        attempt.completed_at = Some(now);
        attempt.outcome = if launched {
            "interrupted".to_owned()
        } else {
            "not_launched".to_owned()
        };
        attempt.detail.failure = Some(failure);
    }
    assert(final(run).attempts@.drop_last() =~= old(run).attempts@.drop_last());
}

/// A stopped run is over: it is not expected to be executing, and it holds the failure.
pub proof fn stopped_work_is_over(
    run: RunRecord,
    attempts: Vec<AttemptRecord>,
    failure: FailureKind,
    alive: bool,
    now: i64,
)
    requires
        run.phase3 is Some,
    ensures
        ({
            let after = after_stop(run, attempts, failure, alive, now);
            &&& !executes(after)
            &&& after.completed_at == Some(now)
            &&& after.phase3 matches Some(p) && p.failure == Some(failure)
            &&& after.outcome.review == ReviewState::NotRequested
        }),
{
}

/// An interrupted run is over, and keeps the failure that it already had.
pub proof fn interrupted_work_is_over(run: RunRecord, alive: bool, now: i64)
    requires
        run.phase3 is Some,
    ensures
        ({
            let after = after_interruption(run, alive, now);
            &&& !executes(after)
            &&& after.phase3 matches Some(p) && p.failure is Some && (run.phase3->0.failure is Some
                ==> p.failure == run.phase3->0.failure)
            &&& after.outcome.verification == run.outcome.verification
            &&& after.attempts == run.attempts
            &&& after.candidates == run.candidates
        }),
{
}

/// Why a cancelled run was interrupted: the deadline before anything else.
pub open spec fn interruption(run: RunRecord, now: i64) -> FailureKind {
    if now >= run.phase3->0.deadline_at {
        FailureKind::Deadline
    } else {
        FailureKind::Cancelled
    }
}

/// Why a cancelled run was interrupted.
pub fn interrupted(run: &RunRecord, now: i64) -> (r: FailureKind)
    requires
        run.phase3 is Some,
    ensures
        r == interruption(*run, now),
{
    match &run.phase3 {
        Some(policy) => if now >= policy.deadline_at {
            FailureKind::Deadline
        } else {
            FailureKind::Cancelled
        },
        None => FailureKind::Cancelled,
    }
}

/// Why a cancelled run was interrupted, where the coherence watcher may have asked for it.
pub open spec fn watched_interruption(run: RunRecord, stale: bool, now: i64) -> FailureKind {
    if interruption(run, now) == FailureKind::Cancelled && stale {
        FailureKind::StaleWork
    } else {
        interruption(run, now)
    }
}

/// Like [`interrupted`], for a cancellation that the coherence watcher itself requested (`stale`): the
/// deadline still wins, otherwise the work is stale.
pub fn interrupted_by(run: &RunRecord, stale: bool, now: i64) -> (r: FailureKind)
    requires
        run.phase3 is Some,
    ensures
        r == watched_interruption(*run, stale, now),
{
    match interrupted(run, now) {
        FailureKind::Cancelled => if stale {
            FailureKind::StaleWork
        } else {
            FailureKind::Cancelled
        },
        failure => failure,
    }
}

/// Whether a verdict on the source warrants stopping the work.
pub open spec fn warrants_stop(v: Validity, stop_on_refresh: bool) -> bool {
    v.decision == Decision::Stop || v.decision == Decision::Refresh && stop_on_refresh
}

/// What a watcher's verdict does: the detail under which it stops a running attempt, if the policy is
/// to stop and the verdict warrants it.
pub fn apply_watch(
    validity: &Validity,
    stops_mid_run: bool,
    stop_on_refresh: bool,
    running: bool,
) -> (r: Option<String>)
    ensures
        match r {
            Some(detail) => {
                &&& running && stops_mid_run && warrants_stop(*validity, stop_on_refresh)
                &&& detail@ == (if validity.reasons@.len() > 0 {
                    validity.reasons@[0].detail@
                } else {
                    "no detail"@
                })
            },
            None => !(running && stops_mid_run && warrants_stop(*validity, stop_on_refresh)),
        },
{
    let stops = validity.decision == Decision::Stop || (validity.decision == Decision::Refresh
        && stop_on_refresh);
    if running && stops_mid_run && stops {
        if validity.reasons.len() > 0 {
            Some(validity.reasons[0].detail.clone())
        } else {
            Some("no detail".to_owned())
        }
    } else {
        None
    }
}

/// Whether a check could not be run at all.
pub open spec fn unrunnable(c: CheckResult) -> bool {
    c.exit_code == Some(126i32) || c.exit_code == Some(127i32) || c.status == CheckStatus::TimedOut
}

/// Whether a check says something: it passed with exit 0 or failed with an exit of its own.
pub open spec fn conclusive(c: CheckResult) -> bool {
    match (c.status, c.exit_code) {
        (CheckStatus::Passed, Some(code)) => code == 0,
        (CheckStatus::Failed, Some(code)) => 1 <= code <= 125,
        _ => false,
    }
}

/// Whether some check of a sequence could not be run.
pub open spec fn some_unrunnable(checks: Seq<CheckResult>) -> bool {
    exists|i: int| 0 <= i < checks.len() && unrunnable(#[trigger] checks[i])
}

/// Whether some check of a sequence says nothing.
pub open spec fn some_inconclusive(checks: Seq<CheckResult>) -> bool {
    exists|i: int| 0 <= i < checks.len() && !conclusive(#[trigger] checks[i])
}

/// Whether some check of a sequence failed.
pub open spec fn some_failed(checks: Seq<CheckResult>) -> bool {
    exists|i: int| 0 <= i < checks.len() && (#[trigger] checks[i]).status == CheckStatus::Failed
}

/// Whether a command passed on the baseline.
pub open spec fn passed_before(baseline: Seq<CheckResult>, command: Seq<char>) -> bool {
    exists|j: int|
        0 <= j < baseline.len() && (#[trigger] baseline[j]).command@ == command && baseline[j].status
            == CheckStatus::Passed
}

/// Whether a check that passed on the baseline failed.
pub open spec fn some_broken(baseline: Seq<CheckResult>, checks: Seq<CheckResult>) -> bool {
    exists|i: int|
        0 <= i < checks.len() && (#[trigger] checks[i]).status == CheckStatus::Failed && passed_before(
            baseline,
            checks[i].command@,
        )
}

/// Whether the whole baseline passed.
pub open spec fn all_passed_before(baseline: Seq<CheckResult>) -> bool {
    forall|j: int| 0 <= j < baseline.len() ==> (#[trigger] baseline[j]).status == CheckStatus::Passed
}

/// What the checks of a candidate say went wrong. All of them must be evaluable before a failure of
/// one can be put down to the work.
pub open spec fn verdict(baseline: Seq<CheckResult>, checks: Seq<CheckResult>) -> Option<FailureKind> {
    if some_unrunnable(checks) {
        Some(FailureKind::VerificationInfrastructure)
    } else if some_inconclusive(checks) {
        Some(FailureKind::VerificationUnknown)
    } else if !some_failed(checks) {
        None
    } else if all_passed_before(baseline) && some_broken(baseline, checks) {
        Some(FailureKind::TargetVerification)
    } else {
        Some(FailureKind::BaselineInfrastructure)
    }
}

fn was_passed_before(baseline: &Vec<CheckResult>, command: &str) -> (r: bool)
    ensures
        r == passed_before(baseline@, command@),
{
    let mut j: usize = 0;
    while j < baseline.len()
        invariant
            j <= baseline.len(),
            forall|k: int|
                0 <= k < j ==> !((#[trigger] baseline@[k]).command@ == command@ && baseline@[k].status
                    == CheckStatus::Passed),
        decreases baseline.len() - j,
    {
        if same(baseline[j].command.as_str(), command) && baseline[j].status == CheckStatus::Passed {
            assert(baseline@[j as int].command@ == command@);
            return true;
        }
        j += 1;
    }
    false
}

/// What the checks of a candidate say went wrong, if anything did.
pub fn verification_failure(run: &RunRecord, candidate: &CandidateRecord) -> (r: Option<FailureKind>)
    ensures
        r == verdict(run.baseline_checks@, candidate.checks@),
{
    check_verdict(&run.baseline_checks, &candidate.checks)
}

/// What checks say went wrong, compared with the same checks before the work.
pub fn check_verdict(baseline: &Vec<CheckResult>, checks: &Vec<CheckResult>) -> (r: Option<FailureKind>)
    ensures
        r == verdict(baseline@, checks@),
{
    let mut unrun = false;
    let mut unclear = false;
    let mut failed = false;
    let mut broken = false;
    let mut i: usize = 0;
    while i < checks.len()
        invariant
            i <= checks.len(),
            unrun == (exists|k: int| 0 <= k < i && unrunnable(#[trigger] checks@[k])),
            unclear == (exists|k: int| 0 <= k < i && !conclusive(#[trigger] checks@[k])),
            failed == (exists|k: int|
                0 <= k < i && (#[trigger] checks@[k]).status == CheckStatus::Failed),
            broken == (exists|k: int|
                0 <= k < i && (#[trigger] checks@[k]).status == CheckStatus::Failed && passed_before(
                    baseline@,
                    checks@[k].command@,
                )),
        decreases checks.len() - i,
    {
        let c = &checks[i];
        let missing = match c.exit_code {
            Some(code) => code == 126 || code == 127,
            None => false,
        };
        if missing || c.status == CheckStatus::TimedOut {
            unrun = true;
        }
        let clear = match (c.status, c.exit_code) {
            (CheckStatus::Passed, Some(code)) => code == 0,
            (CheckStatus::Failed, Some(code)) => 1 <= code && code <= 125,
            _ => false,
        };
        if !clear {
            unclear = true;
        }
        if c.status == CheckStatus::Failed {
            failed = true;
            if was_passed_before(baseline, c.command.as_str()) {
                broken = true;
            }
        }
        assert(*c == checks@[i as int]);
        i += 1;
    }
    if unrun {
        return Some(FailureKind::VerificationInfrastructure);
    }
    if unclear {
        return Some(FailureKind::VerificationUnknown);
    }
    if !failed {
        return None;
    }
    let mut sound = true;
    let mut j: usize = 0;
    while j < baseline.len()
        invariant
            j <= baseline.len(),
            sound == (forall|k: int|
                0 <= k < j ==> (#[trigger] baseline@[k]).status == CheckStatus::Passed),
        decreases baseline.len() - j,
    {
        if baseline[j].status != CheckStatus::Passed {
            sound = false;
            assert(baseline@[j as int].status != CheckStatus::Passed);
        }
        j += 1;
    }
    if sound && broken {
        Some(FailureKind::TargetVerification)
    } else {
        Some(FailureKind::BaselineInfrastructure)
    }
}

/// A candidate has nothing wrong with it exactly when every one of its checks passed with exit 0.
pub proof fn verified_means_every_check_passed(baseline: Seq<CheckResult>, checks: Seq<CheckResult>)
    ensures
        verdict(baseline, checks) is None <==> forall|i: int|
            0 <= i < checks.len() ==> (#[trigger] checks[i]).status == CheckStatus::Passed
                && checks[i].exit_code == Some(0i32),
{
    if verdict(baseline, checks) is None {
        assert forall|i: int| 0 <= i < checks.len() implies (#[trigger] checks[i]).status
            == CheckStatus::Passed && checks[i].exit_code == Some(0i32) by {
            assert(conclusive(checks[i]));
            assert(checks[i].status != CheckStatus::Failed);
        }
    }
}

/// Work is blamed for a failed check only where the whole baseline passed and that check was part of
/// it.
pub proof fn blame_needs_a_sound_baseline(baseline: Seq<CheckResult>, checks: Seq<CheckResult>)
    requires
        verdict(baseline, checks) == Some(FailureKind::TargetVerification),
    ensures
        all_passed_before(baseline),
        some_broken(baseline, checks),
        !some_unrunnable(checks),
        !some_inconclusive(checks),
{
}

/// The most bytes of one output that diagnostics quote.
pub const MAX_OUTPUT: usize = 4096;

/// The most bytes that diagnostics take.
pub const MAX_DIAGNOSTICS: usize = 16_384;

/// The first bytes of an output, as text.
pub open spec fn quoted(output: Seq<u8>) -> Seq<char> {
    lossy_text(
        output.take(
            if output.len() < MAX_OUTPUT {
                output.len() as int
            } else {
                MAX_OUTPUT as int
            },
        ),
    )
}

/// What is said of the checks below `n` that did not pass.
pub open spec fn failures_text(
    checks: Seq<CheckResult>,
    outputs: Seq<(Vec<u8>, Vec<u8>)>,
    n: int,
) -> Seq<char>
    decreases n,
{
    if n <= 0 {
        Seq::empty()
    } else {
        let earlier = failures_text(checks, outputs, n - 1);
        if checks[n - 1].status == CheckStatus::Passed {
            earlier
        } else {
            earlier + "Failed check: "@ + checks[n - 1].command@ + "\n"@ + quoted(outputs[n - 1].0@)
                + quoted(outputs[n - 1].1@)
        }
    }
}

/// What a new attempt is told of the one before it.
pub open spec fn diagnostics_text(
    attempt: AttemptRecord,
    outputs: Seq<(Vec<u8>, Vec<u8>)>,
) -> Seq<char> {
    match attempt.detail.result {
        None => Seq::empty(),
        Some(candidate) => fitting(
            "Previous attempt "@ + attempt.id@
                + " restarted from the same original baseline. Its workspace is retained and is not your input.\n"@
                + failures_text(candidate.checks@, outputs, candidate.checks@.len() as int),
            MAX_DIAGNOSTICS as nat,
        ),
    }
}

fn first_bytes(output: &Vec<u8>) -> (r: String)
    ensures
        r@ == quoted(output@),
{
    let n = if output.len() < MAX_OUTPUT {
        output.len()
    } else {
        MAX_OUTPUT
    };
    let mut bytes: Vec<u8> = Vec::new();
    let mut i: usize = 0;
    while i < n
        invariant
            i <= n <= output.len(),
            bytes@ == output@.take(i as int),
        decreases n - i,
    {
        bytes.push(output[i]);
        i += 1;
    }
    lossy(&bytes)
}

/// What a new attempt is told of the one before it. `outputs` holds, for each of its checks in order,
/// what the check wrote; nothing where that cannot be read.
pub fn diagnostics(attempt: &AttemptRecord, outputs: &Vec<(Vec<u8>, Vec<u8>)>) -> (r: String)
    requires
        attempt.detail.result matches Some(candidate) ==> outputs@.len() == candidate.checks@.len(),
    ensures
        r@ == diagnostics_text(*attempt, outputs@),
{
    match &attempt.detail.result {
        None => String::new(),
        Some(candidate) => {
            let checks = &candidate.checks;
            let mut text = "Previous attempt ".to_owned();
            text.push_str(attempt.id.as_str());
            text.push_str(
                " restarted from the same original baseline. Its workspace is retained and is not your input.\n",
            );
            let ghost start = text@;
            let mut i: usize = 0;
            assert(text@ =~= start + failures_text(checks@, outputs@, 0));
            while i < checks.len()
                invariant
                    i <= checks.len(),
                    outputs@.len() == checks@.len(),
                    text@ == start + failures_text(checks@, outputs@, i as int),
                decreases checks.len() - i,
            {
                if checks[i].status != CheckStatus::Passed {
                    text.push_str("Failed check: ");
                    text.push_str(checks[i].command.as_str());
                    text.push_str("\n");
                    let written = first_bytes(&outputs[i].0);
                    text.push_str(written.as_str());
                    let complained = first_bytes(&outputs[i].1);
                    text.push_str(complained.as_str());
                }
                assert(text@ =~= start + failures_text(checks@, outputs@, i as int + 1));
                i += 1;
            }
            fit(text.as_str(), MAX_DIAGNOSTICS)
        },
    }
}

/// What every attempt is told about questions.
pub open spec fn checkpoint_instruction() -> Seq<char> {
    "\nIf an essential ambiguity prevents safe completion, stop work and emit exactly this JSON as your final agent message: {\"dispatch_checkpoint\":{\"version\":1,\"question\":\"the essential question\",\"choices\":[]}}. You may add \"category\":\"factual\" inside dispatch_checkpoint only for factual task clarification. Omit category for funding, unsafe execution, permissions, or human review decisions. Do not wait in a live process. Otherwise complete the task normally.\n"@
}

/// The answer that an attempt is given, if the last question was answered.
pub open spec fn clarification_text(questions: Seq<Clarification>) -> Seq<char> {
    if questions.len() > 0 && questions.last().state == QuestionState::Answered {
        "\nClarification: "@ + questions.last().report.question@ + "\nAuthorized answer: "@ + (
        match questions.last().answer {
            Some(answer) => answer@,
            None => Seq::empty(),
        }) + "\n"@
    } else {
        Seq::empty()
    }
}

/// What an attempt is asked to do.
pub open spec fn prompt_text(run: RunRecord, outputs: Seq<(Vec<u8>, Vec<u8>)>) -> Seq<char> {
    run.exact_prompt@ + (if run.attempts@.len() > 0 {
        "\n\n"@ + diagnostics_text(run.attempts@.last(), outputs)
    } else {
        Seq::empty()
    }) + clarification_text(run.phase3->0.questions@) + checkpoint_instruction()
}

/// Whether `outputs` holds one entry per check of the last attempt.
pub open spec fn outputs_of(run: RunRecord, outputs: Seq<(Vec<u8>, Vec<u8>)>) -> bool {
    run.attempts@.len() > 0 ==> (run.attempts@.last().detail.result matches Some(candidate)
        ==> outputs.len() == candidate.checks@.len())
}

/// What the next attempt of a run is asked to do: the goal, what is known of the attempt before it, the
/// answer to the last question, and how to ask one.
pub fn prepare(run: &RunRecord, outputs: &Vec<(Vec<u8>, Vec<u8>)>) -> (r: String)
    requires
        run.phase3 is Some,
        outputs_of(*run, outputs@),
    ensures
        r@ == prompt_text(*run, outputs@),
{
    let mut prompt = run.exact_prompt.clone();
    let n = run.attempts.len();
    if n > 0 {
        prompt.push_str("\n\n");
        let known = diagnostics(&run.attempts[n - 1], outputs);
        prompt.push_str(known.as_str());
    }
    if let Some(policy) = &run.phase3 {
        let m = policy.questions.len();
        if m > 0 {
            let question = &policy.questions[m - 1];
            if question.state == QuestionState::Answered {
                prompt.push_str("\nClarification: ");
                prompt.push_str(question.report.question.as_str());
                prompt.push_str("\nAuthorized answer: ");
                if let Some(answer) = &question.answer {
                    prompt.push_str(answer.as_str());
                }
                prompt.push_str("\n");
            }
        }
    }
    prompt.push_str(
        "\nIf an essential ambiguity prevents safe completion, stop work and emit exactly this JSON as your final agent message: {\"dispatch_checkpoint\":{\"version\":1,\"question\":\"the essential question\",\"choices\":[]}}. You may add \"category\":\"factual\" inside dispatch_checkpoint only for factual task clarification. Omit category for funding, unsafe execution, permissions, or human review decisions. Do not wait in a live process. Otherwise complete the task normally.\n",
    );
    assert(prompt@ =~= prompt_text(*run, outputs@));
    prompt
}

/// The files of one attempt.
#[derive(Debug, Clone, PartialEq, Eq)]
pub struct AttemptPaths {
    pub workspace: String,
    pub prompt: String,
    pub stdout: String,
    pub stderr: String,
    pub diff: String,
    pub telemetry: String,
}

/// Whether a candidate is new.
pub open spec fn fresh_candidate(
    c: CandidateRecord,
    id: Seq<char>,
    harness: Seq<char>,
    paths: AttemptPaths,
) -> bool {
    &&& c.id@ == id
    &&& c.label@ == "A"@
    &&& c.harness_id@ == harness
    &&& c.harness_version is None
    &&& c.model is None
    &&& c.status == CandidateStatus::Preparing
    &&& c.workspace_path == paths.workspace
    &&& c.prompt_path == paths.prompt
    &&& c.stdout_path == paths.stdout
    &&& c.stderr_path == paths.stderr
    &&& c.diff_path == paths.diff
    &&& c.duration_ms == 0
    &&& c.exit_code is None
    &&& !c.timed_out
    &&& c.tokens is None
    &&& c.token_semantics is None
    &&& c.cost is None
    &&& c.error is None
    &&& c.diff_stats == (DiffStats { files_changed: 0, lines_added: 0, lines_removed: 0 })
    &&& c.checks@.len() == 0
}

/// What an attempt runs on: the resource of its decision, or the agent that the caller fixed.
pub open spec fn runs_on(
    decision: Option<AllocationDecision>,
    goal: GoalExecution,
) -> (Option<Seq<char>>, Option<Seq<char>>, Option<Seq<char>>) {
    match decision {
        Some(d) => (
            Some(d.selected.harness@),
            Some(d.selected.resolved_model@),
            optional_view(d.selected.effort),
        ),
        None => (
            optional_view(goal.fixed_harness),
            optional_view(goal.fixed_model),
            optional_view(goal.fixed_effort),
        ),
    }
}

/// Whether an attempt is new in its run.
pub open spec fn fresh_attempt(
    a: AttemptRecord,
    run: RunRecord,
    decision: Option<AllocationDecision>,
    reason: Option<String>,
    id: Seq<char>,
    input: Seq<char>,
    paths: AttemptPaths,
    now: i64,
) -> bool {
    let (harness, model, effort) = runs_on(decision, run.phase3->0);
    &&& a.id@ == id
    &&& a.run_id == run.id
    &&& a.candidate_id@ == id
    &&& a.role@ == "executor"@
    &&& a.ordinal == run.attempts@.len() + 1
    &&& a.generation == 1
    &&& Some(a.harness_id@) == harness
    &&& a.harness_version is None
    &&& optional_view(a.requested_model) == model
    &&& optional_view(a.resolved_model) == model
    &&& a.observed_model is None
    &&& optional_view(a.requested_effort) == effort
    &&& optional_view(a.resolved_effort) == effort
    &&& a.observed_effort is None
    &&& a.started_at == now
    &&& a.completed_at is None
    &&& a.outcome@ == "preparing"@
    &&& a.raw_telemetry_path == paths.telemetry
    &&& a.resource == (match decision {
        Some(d) => Some(d.selected),
        None => None,
    })
    &&& a.detail.parent_attempt_id == (if run.attempts@.len() > 0 {
        Some(run.attempts@.last().id)
    } else {
        None
    })
    &&& a.detail.reason == reason
    &&& optional_view(a.detail.input_baseline) == Some(input)
    &&& a.detail.decision == decision
    &&& a.detail.capacity is None
    &&& a.detail.admission is None
    &&& a.detail.task_id is None
    &&& a.detail.plan_revision is None
    &&& a.detail.input_snapshot_id is None
    &&& a.detail.consumed_artifacts@.len() == 0
    &&& a.detail.failure is None
    &&& a.detail.result is None
}

/// Records a new attempt of a run, with its candidate in the place of any other. `id` is new, `input`
/// the tree that the attempt starts from.
pub fn prepare_input(
    run: &mut RunRecord,
    decision: Option<AllocationDecision>,
    reason: Option<String>,
    id: &str,
    input: &str,
    paths: &AttemptPaths,
    now: i64,
) -> (r: Result<CandidateRecord, String>)
    requires
        old(run).attempts@.len() < u32::MAX,
    ensures
        if old(run).phase3 is None {
            &&& r matches Err(e) && e@ == "native run without execution policy"@
            &&& *final(run) == *old(run)
        } else if runs_on(decision, old(run).phase3->0).0 is None {
            &&& r matches Err(e) && e@ == "native run without an agent"@
            &&& *final(run) == *old(run)
        } else {
            &&& r matches Ok(c) && fresh_candidate(
                c,
                id@,
                runs_on(decision, old(run).phase3->0).0->0,
                *paths,
            ) && final(run).candidates@.len() == 1 && same_candidate(c, final(run).candidates@[0])
            &&& final(run).attempts@.len() == old(run).attempts@.len() + 1
            &&& final(run).attempts@.drop_last() == old(run).attempts@
            &&& fresh_attempt(
                final(run).attempts@.last(),
                *old(run),
                decision,
                reason,
                id@,
                input@,
                *paths,
                now,
            )
            &&& *final(run) == (RunRecord {
                attempts: final(run).attempts,
                candidates: final(run).candidates,
                ..*old(run)
            })
        },
{
    let goal = match &run.phase3 {
        None => {
            return Err("native run without execution policy".to_owned());
        },
        Some(goal) => goal,
    };
    let (harness, model, effort, resource) = match &decision {
        Some(d) => (
            d.selected.harness.clone(),
            Some(d.selected.resolved_model.clone()),
            copy_optional(&d.selected.effort),
            Some(d.selected.copied()),
        ),
        None => match &goal.fixed_harness {
            Some(harness) => (
                harness.clone(),
                copy_optional(&goal.fixed_model),
                copy_optional(&goal.fixed_effort),
                None,
            ),
            None => {
                return Err("native run without an agent".to_owned());
            },
        },
    };
    let candidate = CandidateRecord {
        id: id.to_owned(),
        label: "A".to_owned(),
        harness_id: harness.clone(),
        harness_version: None,
        model: None,
        status: CandidateStatus::Preparing,
        workspace_path: paths.workspace.clone(),
        prompt_path: paths.prompt.clone(),
        stdout_path: paths.stdout.clone(),
        stderr_path: paths.stderr.clone(),
        diff_path: paths.diff.clone(),
        duration_ms: 0,
        exit_code: None,
        timed_out: false,
        tokens: None,
        token_semantics: None,
        cost: None,
        error: None,
        diff_stats: DiffStats { files_changed: 0, lines_added: 0, lines_removed: 0 },
        checks: Vec::new(),
    };
    let n = run.attempts.len();
    let parent_attempt_id = if n > 0 {
        Some(run.attempts[n - 1].id.clone())
    } else {
        None
    };
    let attempt = AttemptRecord {
        id: id.to_owned(),
        run_id: run.id.clone(),
        candidate_id: id.to_owned(),
        role: "executor".to_owned(),
        ordinal: n as u32 + 1,
        generation: 1,
        harness_id: harness,
        harness_version: None,
        requested_model: copy_optional(&model),
        resolved_model: model,
        observed_model: None,
        requested_effort: copy_optional(&effort),
        resolved_effort: effort,
        observed_effort: None,
        started_at: now,
        completed_at: None,
        outcome: "preparing".to_owned(),
        raw_telemetry_path: paths.telemetry.clone(),
        resource,
        detail: AttemptDetail {
            parent_attempt_id,
            reason,
            input_baseline: Some(input.to_owned()),
            capacity: None,
            admission: None,
            decision,
            task_id: None,
            plan_revision: None,
            input_snapshot_id: None,
            consumed_artifacts: Vec::new(),
            failure: None,
            result: None,
        },
    };
    run.attempts.push(attempt);
    let mut candidates: Vec<CandidateRecord> = Vec::new();
    candidates.push(candidate.copied());
    run.candidates = candidates;
    assert(run.attempts@.drop_last() =~= old(run).attempts@);
    Ok(candidate)
}

/// Refuses to go on with work that was rejected or cancelled.
pub fn ensure_open(run: &RunRecord) -> (r: Result<(), String>)
    ensures
        r is Ok <==> run.outcome.review != ReviewState::Rejected && run.outcome.work_result
            != WorkResult::Cancelled,
        r matches Err(e) ==> e@ == "closed work cannot continue"@,
{
    if run.outcome.review != ReviewState::Rejected && run.outcome.work_result
        != WorkResult::Cancelled {
        Ok(())
    } else {
        Err("closed work cannot continue".to_owned())
    }
}

/// Whether a baseline check gives nothing to compare with: it neither passed nor failed, it could not
/// be found or run, or it ended without an exit.
pub open spec fn unusable(c: CheckResult) -> bool {
    ||| c.status != CheckStatus::Passed && c.status != CheckStatus::Failed
    ||| c.exit_code == Some(126i32)
    ||| c.exit_code == Some(127i32)
    ||| c.status == CheckStatus::Failed && c.exit_code is None
}

/// Whether the baseline of a run that has not been attempted is unusable.
pub open spec fn baseline_blocks(run: RunRecord) -> bool {
    run.attempts@.len() == 0 && exists|i: int|
        0 <= i < run.baseline_checks@.len() && unusable(#[trigger] run.baseline_checks@[i])
}

/// Whether the baseline of a run that has not been attempted is unusable, so that no attempt is made.
pub fn baseline_unusable(run: &RunRecord) -> (r: bool)
    ensures
        r == baseline_blocks(*run),
{
    if run.attempts.len() > 0 {
        return false;
    }
    let checks = &run.baseline_checks;
    let mut i: usize = 0;
    while i < checks.len()
        invariant
            i <= checks.len(),
            checks@ == run.baseline_checks@,
            run.attempts@.len() == 0,
            forall|k: int| 0 <= k < i ==> !unusable(#[trigger] checks@[k]),
        decreases checks.len() - i,
    {
        let c = &checks[i];
        let missing = match c.exit_code {
            Some(code) => code == 126 || code == 127,
            None => c.status == CheckStatus::Failed,
        };
        if missing || (c.status != CheckStatus::Passed && c.status != CheckStatus::Failed) {
            assert(unusable(run.baseline_checks@[i as int]));
            return true;
        }
        i += 1;
    }
    false
}

/// The decision that the next attempt of a run goes by: none without a funding contract, the run's own
/// for the first attempt, and that of the attempt before it for a continuation.
pub fn route(run: &RunRecord) -> (r: Result<Option<&AllocationDecision>, String>)
    ensures
        if run.allocation is None {
            r matches Ok(d) && d is None
        } else if run.attempts@.len() == 0 {
            r matches Ok(d) && behind(d) == run.allocation
        } else {
            match run.attempts@.last().detail.decision {
                Some(decision) => r matches Ok(d) && behind(d) == Some(decision),
                None => r matches Err(e) && e@ == "continuation route missing"@,
            }
        },
{
    match &run.allocation {
        None => Ok(None),
        Some(allocation) => {
            let n = run.attempts.len();
            if n == 0 {
                Ok(Some(allocation))
            } else {
                match &run.attempts[n - 1].detail.decision {
                    Some(decision) => Ok(Some(decision)),
                    None => Err("continuation route missing".to_owned()),
                }
            }
        },
    }
}

/// How many attempts a goal may have.
pub open spec fn invocation_limit(goal: GoalExecution) -> int {
    if goal.max_invocations < 2 {
        goal.max_invocations as int
    } else {
        2
    }
}

fn limit_of(goal: &GoalExecution) -> (r: usize)
    ensures
        r == invocation_limit(*goal),
{
    if goal.max_invocations < 2 {
        goal.max_invocations as usize
    } else {
        2
    }
}

/// Whether a configured profile still authorizes a selected resource.
pub open spec fn authorizes(p: ResourceProfile, c: ResourceChoice) -> bool {
    &&& p.provider@ == c.provider@
    &&& p.funding_source@ == c.funding_source@
    &&& p.pool@ == c.pool@
    &&& p.model@ == c.resolved_model@
    &&& optional_view(p.effort) == optional_view(c.effort)
    &&& p.harness@ == c.harness@
    &&& p.enabled
    &&& p.runtime@ == c.runtime@
    &&& p.service_mode@ == c.service_mode@
    &&& p.included
    &&& p.no_overage_verified
}

/// The first profile from `from` on that authorizes a resource.
pub open spec fn authorizing(profiles: Seq<ResourceProfile>, c: ResourceChoice, from: int) -> Option<
    int,
>
    decreases profiles.len() - from,
{
    if from < 0 || from >= profiles.len() {
        None
    } else if authorizes(profiles[from], c) {
        Some(from)
    } else {
        authorizing(profiles, c, from + 1)
    }
}

/// The first profile that still authorizes a selected resource.
pub fn find_authorizing(profiles: &Vec<ResourceProfile>, c: &ResourceChoice) -> (r: Option<usize>)
    ensures
        match r {
            Some(i) => authorizing(profiles@, *c, 0) == Some(i as int) && i < profiles@.len()
                && authorizes(profiles@[i as int], *c),
            None => authorizing(profiles@, *c, 0) is None,
        },
{
    let effort = match &c.effort {
        Some(effort) => Some(effort.as_str()),
        None => None,
    };
    let mut i: usize = 0;
    while i < profiles.len()
        invariant
            i <= profiles.len(),
            optional_str(effort) == optional_view(c.effort),
            authorizing(profiles@, *c, 0) == authorizing(profiles@, *c, i as int),
        decreases profiles.len() - i,
    {
        let p = &profiles[i];
        if same(p.provider.as_str(), c.provider.as_str()) && same(
            p.funding_source.as_str(),
            c.funding_source.as_str(),
        ) && same(p.pool.as_str(), c.pool.as_str()) && same(
            p.model.as_str(),
            c.resolved_model.as_str(),
        ) && same_optional(&p.effort, effort) && same(p.harness.as_str(), c.harness.as_str())
            && p.enabled && same(p.runtime.as_str(), c.runtime.as_str()) && same(
            p.service_mode.as_str(),
            c.service_mode.as_str(),
        ) && p.included && p.no_overage_verified {
            return Some(i);
        }
        i += 1;
    }
    None
}

/// What a run does next.
#[derive(Debug, Clone, PartialEq, Eq)]
pub enum Step {
    /// It stops for this failure, with this message.
    Stop(FailureKind, String),
    /// It launches an attempt, under the profile at this index where it has a funding contract.
    Launch(Option<usize>),
}

/// What a run does next, as a value.
pub ghost enum NextStep {
    Stop(FailureKind, Seq<char>),
    Launch(Option<int>),
}

/// What a run does next: it stops when it was cancelled or its deadline passed, when it has no attempt
/// left, when its source changed, or when its resource is no longer authorized or its funding was
/// refused.
pub open spec fn next_step(
    run: RunRecord,
    decision: Option<AllocationDecision>,
    cancelled: bool,
    fingerprint: Seq<char>,
    profiles: Seq<ResourceProfile>,
    refusals: Seq<Option<String>>,
    now: i64,
) -> NextStep {
    if cancelled || now >= run.phase3->0.deadline_at {
        NextStep::Stop(interruption(run, now), "goal cancelled or deadline expired"@)
    } else if run.attempts@.len() >= invocation_limit(run.phase3->0) {
        NextStep::Stop(FailureKind::InvocationLimit, "goal invocation limit reached"@)
    } else if fingerprint != run.source_fingerprint@ {
        NextStep::Stop(FailureKind::SourceDrift, "source drift before fresh attempt"@)
    } else {
        match decision {
            None => NextStep::Launch(None),
            Some(d) => match authorizing(profiles, d.selected, 0) {
                None => NextStep::Stop(
                    FailureKind::Authorization,
                    "selected route is no longer authorized by the current resource configuration"@,
                ),
                Some(i) => match refusals[i] {
                    Some(message) => NextStep::Stop(FailureKind::Authorization, message@),
                    None => NextStep::Launch(Some(i)),
                },
            },
        }
    }
}

/// Decides what a run does next. `fingerprint` is that of the source now; `refusals` holds, for each
/// profile, the message under which its funding was refused, if it was.
pub fn decide_step(
    run: &RunRecord,
    decision: Option<&AllocationDecision>,
    cancelled: bool,
    fingerprint: &str,
    profiles: &Vec<ResourceProfile>,
    refusals: &Vec<Option<String>>,
    now: i64,
) -> (r: Step)
    requires
        run.phase3 is Some,
        refusals@.len() == profiles@.len(),
    ensures
        match next_step(
            *run,
            behind(decision),
            cancelled,
            fingerprint@,
            profiles@,
            refusals@,
            now,
        ) {
            NextStep::Stop(failure, message) => r matches Step::Stop(f, m) && f == failure && m@
                == message,
            NextStep::Launch(index) => match r {
                Step::Launch(Some(i)) => index == Some(i as int),
                Step::Launch(None) => index is None,
                Step::Stop(_, _) => false,
            },
        },
{
    if let Some(goal) = &run.phase3 {
        if cancelled || now >= goal.deadline_at {
            return Step::Stop(
                interrupted(run, now),
                "goal cancelled or deadline expired".to_owned(),
            );
        }
        if run.attempts.len() >= limit_of(goal) {
            return Step::Stop(
                FailureKind::InvocationLimit,
                "goal invocation limit reached".to_owned(),
            );
        }
    }
    if !same(fingerprint, run.source_fingerprint.as_str()) {
        return Step::Stop(
            FailureKind::SourceDrift,
            "source drift before fresh attempt".to_owned(),
        );
    }
    match decision {
        None => Step::Launch(None),
        Some(d) => match find_authorizing(profiles, &d.selected) {
            None => Step::Stop(
                FailureKind::Authorization,
                "selected route is no longer authorized by the current resource configuration".to_owned(),
            ),
            Some(i) => match &refusals[i] {
                Some(message) => Step::Stop(FailureKind::Authorization, message.clone()),
                None => Step::Launch(Some(i)),
            },
        },
    }
}

/// An attempt is launched only within the goal's limits: before its deadline, with fewer attempts than
/// it may have and never more than two, on an unchanged source, and on a resource that a profile
/// authorizes and whose funding was not refused.
pub proof fn launches_stay_within_limits(
    run: RunRecord,
    decision: Option<AllocationDecision>,
    cancelled: bool,
    fingerprint: Seq<char>,
    profiles: Seq<ResourceProfile>,
    refusals: Seq<Option<String>>,
    now: i64,
)
    requires
        next_step(run, decision, cancelled, fingerprint, profiles, refusals, now) is Launch,
    ensures
        !cancelled,
        now < run.phase3->0.deadline_at,
        run.attempts@.len() < 2,
        run.attempts@.len() < run.phase3->0.max_invocations,
        fingerprint == run.source_fingerprint@,
        decision matches Some(d) ==> exists|i: int|
            0 <= i < profiles.len() && authorizes(#[trigger] profiles[i], d.selected) && refusals[i]
                is None,
{
    if let Some(d) = decision {
        authorizing_authorizes(profiles, d.selected, 0);
    }
}

proof fn authorizing_authorizes(profiles: Seq<ResourceProfile>, c: ResourceChoice, from: int)
    ensures
        authorizing(profiles, c, from) matches Some(i) ==> 0 <= i < profiles.len() && authorizes(
            profiles[i],
            c,
        ),
    decreases profiles.len() - from,
{
    if 0 <= from < profiles.len() {
        authorizing_authorizes(profiles, c, from + 1);
    }
}

/// A run while an attempt of it is at work.
pub open spec fn after_launch(run: RunRecord) -> RunRecord {
    RunRecord {
        status: RunStatus::Running,
        completed_at: None,
        outcome: RunOutcome {
            lifecycle: LifecycleState::Working,
            work_result: WorkResult::Pending,
            review: ReviewState::NotRequested,
            waiting_on: WaitingOn::Nothing,
            verification: VerificationState::NotRun,
            phase: RunPhase::Executing,
            ..run.outcome
        },
        phase3: Some(GoalExecution { final_attempt_id: None, failure: None, ..run.phase3->0 }),
        ..run
    }
}

/// Puts a run to work on the attempt that was prepared for it.
pub fn launch(run: &mut RunRecord)
    requires
        old(run).phase3 is Some,
    ensures
        *final(run) == after_launch(*old(run)),
{
    if let Some(policy) = &mut run.phase3 {
        policy.final_attempt_id = None;
        policy.failure = None;
    }
    run.status = RunStatus::Running;
    run.completed_at = None;
    run.outcome.lifecycle = LifecycleState::Working;
    run.outcome.work_result = WorkResult::Pending;
    run.outcome.review = ReviewState::NotRequested;
    run.outcome.waiting_on = WaitingOn::Nothing;
    run.outcome.verification = VerificationState::NotRun;
    run.outcome.phase = RunPhase::Executing;
}

/// How an attempt returned.
#[derive(Debug, Clone, PartialEq, Eq)]
pub struct Execution {
    pub candidate: CandidateRecord,
    /// Whether its processes are known to be gone.
    pub cleanup_confirmed: bool,
    pub failure: Option<FailureKind>,
    pub checkpoint: Checkpoint,
}

/// What an attempt said it stopped on.
#[derive(Debug, Clone, PartialEq, Eq)]
pub enum Checkpoint {
    Nothing,
    Unsupported,
    Question(CheckpointReport),
}

/// Why an attempt that returned stops its goal, if it does. Checks that failed do not: the work is
/// delivered for review with its classification.
pub open spec fn stops(
    run: RunRecord,
    execution: Execution,
    cancelled: bool,
    stale: bool,
    now: i64,
) -> Option<FailureKind> {
    if cancelled {
        Some(watched_interruption(run, stale, now))
    } else if !execution.cleanup_confirmed {
        Some(FailureKind::InternalState)
    } else if execution.candidate.status != CandidateStatus::Completed {
        Some(
            match execution.failure {
                Some(failure) => failure,
                None => FailureKind::HarnessProcess,
            },
        )
    } else if execution.checkpoint is Unsupported {
        Some(FailureKind::UnsupportedCheckpoint)
    } else if execution.checkpoint is Question && run.attempts@.len() >= invocation_limit(
        run.phase3->0,
    ) {
        Some(FailureKind::InvocationLimit)
    } else {
        None
    }
}

/// Why an attempt that returned stops its goal, if it does.
pub fn stopped_by(
    run: &RunRecord,
    execution: &Execution,
    cancelled: bool,
    stale: bool,
    now: i64,
) -> (r: Option<FailureKind>)
    requires
        run.phase3 is Some,
    ensures
        r == stops(*run, *execution, cancelled, stale, now),
{
    if cancelled {
        return Some(interrupted_by(run, stale, now));
    }
    if !execution.cleanup_confirmed {
        return Some(FailureKind::InternalState);
    }
    if execution.candidate.status != CandidateStatus::Completed {
        return match execution.failure {
            Some(failure) => Some(failure),
            None => Some(FailureKind::HarnessProcess),
        };
    }
    match &execution.checkpoint {
        Checkpoint::Unsupported => Some(FailureKind::UnsupportedCheckpoint),
        Checkpoint::Question(_) => {
            if let Some(goal) = &run.phase3 {
                if run.attempts.len() >= limit_of(goal) {
                    return Some(FailureKind::InvocationLimit);
                }
            }
            None
        },
        Checkpoint::Nothing => None,
    }
}

/// A run whose attempt returned, before it is decided what becomes of it.
pub open spec fn after_return(
    run: RunRecord,
    candidates: Vec<CandidateRecord>,
    refreshed: RunOutcome,
) -> RunRecord {
    RunRecord {
        candidates,
        outcome: RunOutcome {
            lifecycle: LifecycleState::Working,
            work_result: WorkResult::Pending,
            review: ReviewState::NotRequested,
            ..refreshed
        },
        ..run
    }
}

/// Whether `new` is the run once the candidate of an attempt came back to it.
pub open spec fn has_returned(
    new: RunRecord,
    run: RunRecord,
    candidate: CandidateRecord,
    refreshed: RunOutcome,
) -> bool {
    &&& new == after_return(run, new.candidates, refreshed)
    &&& new.candidates@.len() == 1
    &&& same_candidate(new.candidates@[0], candidate)
}

/// Takes the candidate of a returned attempt into its run. `refreshed` is what the candidate makes of
/// the outcome.
pub fn take_return(run: &mut RunRecord, candidate: &CandidateRecord, refreshed: RunOutcome)
    ensures
        has_returned(*final(run), *old(run), *candidate, refreshed),
{
    let mut candidates: Vec<CandidateRecord> = Vec::new();
    candidates.push(candidate.copied());
    run.candidates = candidates;
    run.outcome = refreshed;
    run.outcome.lifecycle = LifecycleState::Working;
    run.outcome.work_result = WorkResult::Pending;
    run.outcome.review = ReviewState::NotRequested;
}

/// Whether `new` is the run once it was recorded what came of its last attempt.
pub open spec fn has_recorded(
    new: RunRecord,
    run: RunRecord,
    candidate: CandidateRecord,
    failure: Option<FailureKind>,
) -> bool {
    let was = run.attempts@.last();
    let last = new.attempts@.last();
    &&& new == (RunRecord { attempts: new.attempts, ..run })
    &&& new.attempts@.len() == run.attempts@.len()
    &&& new.attempts@.drop_last() == run.attempts@.drop_last()
    &&& last == (AttemptRecord {
        detail: AttemptDetail { result: last.detail.result, failure, ..was.detail },
        ..was
    })
    &&& last.detail.result matches Some(c) && same_candidate(c, candidate)
}

/// Records what came of the last attempt of a run.
pub fn finish_attempt(run: &mut RunRecord, candidate: &CandidateRecord, failure: Option<FailureKind>)
    requires
        old(run).attempts@.len() > 0,
    ensures
        has_recorded(*final(run), *old(run), *candidate, failure),
{
    let n = run.attempts.len();
    let attempt = &mut run.attempts[n - 1];
    attempt.detail.result = Some(candidate.copied());
    attempt.detail.failure = failure;
    assert(final(run).attempts@.drop_last() =~= old(run).attempts@.drop_last());
}

/// What is said when an attempt stops its goal.
pub open spec fn stop_text(
    stale: Option<Seq<char>>,
    failure: FailureKind,
    error: Option<Seq<char>>,
) -> Seq<char> {
    if stale is Some && failure == FailureKind::StaleWork {
        "work stopped: the source changed underneath it ("@ + stale->0 + ")"@
    } else {
        match error {
            Some(text) => text,
            None => "attempt did not safely complete"@,
        }
    }
}

/// What is said when an attempt stops its goal.
pub fn stop_message(stale: Option<&str>, failure: FailureKind, error: Option<&str>) -> (r: String)
    ensures
        r@ == stop_text(optional_str(stale), failure, optional_str(error)),
{
    if let Some(detail) = stale {
        if failure == FailureKind::StaleWork {
            let mut text = "work stopped: the source changed underneath it (".to_owned();
            text.push_str(detail);
            text.push_str(")");
            return text;
        }
    }
    match error {
        Some(text) => text.to_owned(),
        None => "attempt did not safely complete".to_owned(),
    }
}

/// Whether a question is new in its run.
pub open spec fn fresh_question(
    q: Clarification,
    run: RunRecord,
    report: CheckpointReport,
    id: Seq<char>,
    now: i64,
) -> bool {
    &&& q.id@ == id
    &&& q.run_id == run.id
    &&& q.attempt_id == run.attempts@.last().id
    &&& q.generation == 1
    &&& q.revision == 1
    &&& q.report == report
    &&& q.state == QuestionState::Pending
    &&& q.answer is None
    &&& q.created_at == now
    &&& q.resolved_at is None
    &&& q.actor_uid is None
    &&& q.actor is None
}

/// Whether `new` is the run once a question was put: it waits for an answer.
pub open spec fn has_asked(
    new: RunRecord,
    run: RunRecord,
    report: CheckpointReport,
    id: Seq<char>,
    now: i64,
) -> bool {
    &&& new == (RunRecord {
        outcome: RunOutcome {
            lifecycle: LifecycleState::Waiting,
            waiting_on: WaitingOn::Human,
            work_result: WorkResult::Pending,
            verification: VerificationState::NotRun,
            ..run.outcome
        },
        phase3: new.phase3,
        ..run
    })
    &&& new.phase3 matches Some(p) && {
        &&& p == (GoalExecution { questions: p.questions, ..run.phase3->0 })
        &&& p.questions@.len() == run.phase3->0.questions@.len() + 1
        &&& p.questions@.drop_last() == run.phase3->0.questions@
        &&& fresh_question(p.questions@.last(), run, report, id, now)
    }
}

/// Puts the question of a returned attempt to the owner: the run waits for an answer.
pub fn ask(run: &mut RunRecord, report: CheckpointReport, id: &str, now: i64)
    requires
        old(run).phase3 is Some,
        old(run).attempts@.len() > 0,
    ensures
        has_asked(*final(run), *old(run), report, id@, now),
{
    let n = run.attempts.len();
    let question = Clarification {
        id: id.to_owned(),
        run_id: run.id.clone(),
        attempt_id: run.attempts[n - 1].id.clone(),
        generation: 1,
        revision: 1,
        report,
        state: QuestionState::Pending,
        answer: None,
        created_at: now,
        resolved_at: None,
        actor_uid: None,
        actor: None,
    };
    let ghost added = question;
    if let Some(policy) = &mut run.phase3 {
        policy.questions.push(question);
    }
    run.outcome.lifecycle = LifecycleState::Waiting;
    run.outcome.waiting_on = WaitingOn::Human;
    run.outcome.work_result = WorkResult::Pending;
    run.outcome.verification = VerificationState::NotRun;
    assert(run.phase3->0.questions@.drop_last() =~= old(run).phase3->0.questions@);
}

/// The identifiers of attempts, in order.
pub open spec fn ids(attempts: Seq<AttemptRecord>) -> Seq<Seq<char>> {
    attempts.map_values(|a: AttemptRecord| a.id@)
}

/// The delivery of work that took several attempts: nothing of it is put down to one of them.
pub open spec fn mixed(new: CandidateRecord, was: CandidateRecord) -> bool {
    &&& new == (CandidateRecord {
        harness_id: new.harness_id,
        harness_version: None,
        model: None,
        tokens: None,
        cost: None,
        token_semantics: new.token_semantics,
        ..was
    })
    &&& new.harness_id@ == "mixed"@
    &&& optional_view(new.token_semantics) == Some("see_per_attempt"@)
}

/// The policy and the candidates of a run whose last attempt is delivered.
pub open spec fn contributes(
    policy: GoalExecution,
    candidates: Vec<CandidateRecord>,
    run: RunRecord,
    failure: Option<FailureKind>,
) -> bool {
    &&& policy == (GoalExecution {
        final_attempt_id: Some(run.attempts@.last().id),
        contributing_attempts: policy.contributing_attempts,
        provenance: policy.provenance,
        failure,
        ..run.phase3->0
    })
    &&& texts(policy.contributing_attempts@) == ids(run.attempts@)
    &&& policy.provenance@ == (if run.attempts@.len() > 1 {
        "mixed_attempt_context"@
    } else {
        run.phase3->0.provenance@
    })
    &&& candidates@.len() == run.candidates@.len()
    &&& candidates@.drop_first() == run.candidates@.drop_first()
    &&& if run.attempts@.len() > 1 {
        mixed(candidates@[0], run.candidates@[0])
    } else {
        candidates == run.candidates
    }
}

/// Makes the last attempt of a run its delivery, and names every attempt that led to it. `refreshed` is
/// what the candidate makes of the outcome, `failure` what its checks say.
pub(crate) fn contribute(run: &mut RunRecord, failure: Option<FailureKind>, refreshed: RunOutcome)
    requires
        old(run).phase3 is Some,
        old(run).attempts@.len() > 0,
        old(run).candidates@.len() > 0,
    ensures
        *final(run) == (RunRecord {
            outcome: refreshed,
            candidates: final(run).candidates,
            phase3: final(run).phase3,
            ..*old(run)
        }),
        final(run).phase3 matches Some(p) && contributes(
            p,
            final(run).candidates,
            *old(run),
            failure,
        ),
{
    let n = run.attempts.len();
    let mut contributing: Vec<String> = Vec::new();
    let mut i: usize = 0;
    while i < n
        invariant
            i <= n == run.attempts.len(),
            *run == *old(run),
            texts(contributing@) == ids(run.attempts@.take(i as int)),
        decreases n - i,
    {
        let ghost earlier = contributing@;
        contributing.push(run.attempts[i].id.clone());
        assert(texts(contributing@) =~= texts(earlier).push(run.attempts@[i as int].id@));
        assert(ids(run.attempts@.take(i as int + 1)) =~= ids(run.attempts@.take(i as int)).push(
            run.attempts@[i as int].id@,
        ));
        i += 1;
    }
    assert(run.attempts@.take(n as int) =~= run.attempts@);
    let last = run.attempts[n - 1].id.clone();
    if let Some(policy) = &mut run.phase3 {
        policy.final_attempt_id = Some(last);
        policy.contributing_attempts = contributing;
        if n > 1 {
            policy.provenance = "mixed_attempt_context".to_owned();
        }
        policy.failure = failure;
    }
    if n > 1 {
        let delivery = &mut run.candidates[0];
        delivery.harness_id = "mixed".to_owned();
        delivery.harness_version = None;
        delivery.model = None;
        delivery.tokens = None;
        delivery.cost = None;
        delivery.token_semantics = Some("see_per_attempt".to_owned());
    }
    run.outcome = refreshed;
    assert(run.candidates@.drop_first() =~= old(run).candidates@.drop_first());
}

/// The status of a run whose work was delivered.
pub open spec fn delivered_status(work: WorkResult) -> RunStatus {
    if work == WorkResult::Ready {
        RunStatus::ReadyForEvaluation
    } else {
        RunStatus::Failed
    }
}

/// Whether `new` is the run once its last attempt was delivered for review.
pub open spec fn has_delivered(
    new: RunRecord,
    run: RunRecord,
    failure: Option<FailureKind>,
    refreshed: RunOutcome,
    now: i64,
) -> bool {
    &&& new == (RunRecord {
        status: delivered_status(refreshed.work_result),
        completed_at: Some(now),
        outcome: refreshed,
        candidates: new.candidates,
        phase3: new.phase3,
        ..run
    })
    &&& new.phase3 matches Some(p) && contributes(p, new.candidates, run, failure)
}

/// Delivers the work of the last attempt for review. `refreshed` is what the candidate makes of the
/// outcome, `failure` what its checks say.
pub fn deliver(
    run: &mut RunRecord,
    failure: Option<FailureKind>,
    refreshed: RunOutcome,
    now: i64,
)
    requires
        old(run).phase3 is Some,
        old(run).attempts@.len() > 0,
        old(run).candidates@.len() > 0,
    ensures
        has_delivered(*final(run), *old(run), failure, refreshed, now),
{
    contribute(run, failure, refreshed);
    run.completed_at = Some(now);
    run.status = if refreshed.work_result == WorkResult::Ready {
        RunStatus::ReadyForEvaluation
    } else {
        RunStatus::Failed
    };
}

/// What a run reports first.
#[derive(Debug, Clone, PartialEq, Eq)]
pub enum Headline {
    /// The question that it waits on.
    Question(String),
    /// Its result, under this heading.
    Result(String),
    /// That it stopped without one.
    Stopped(String),
}

/// The question that a run waits on.
pub open spec fn waiting_question(run: RunRecord) -> Option<Clarification> {
    match run.phase3 {
        Some(p) => if p.questions@.len() > 0 && p.questions@.last().state == QuestionState::Pending {
            Some(p.questions@.last())
        } else {
            None
        },
        None => None,
    }
}

/// How a waiting question is put.
pub open spec fn question_text(run: RunRecord, q: Clarification) -> Seq<char> {
    q.report.question@ + "\nQuestion "@ + q.id@ + " (revision "@ + decimal(q.revision as nat)
        + ") — answer with dispatch answer "@ + run.id@ + " "@ + q.id@ + " --revision "@ + decimal(
        q.revision as nat,
    ) + " --answer <text>"@
}

/// How a run that stopped without a result is reported.
pub open spec fn stopped_text(run: RunRecord) -> Seq<char> {
    "Work stopped: "@ + (match run.phase3 {
        Some(p) => match p.failure {
            Some(failure) => "Some("@ + failure.variant() + ")"@,
            None => "None"@,
        },
        None => "None"@,
    })
}

/// The heading of a result.
pub open spec fn heading(run: RunRecord) -> Seq<char> {
    if run.outcome.review == ReviewState::Accepted || run.outcome.review == ReviewState::Rejected {
        "Reviewed"@
    } else if run.outcome.work_result == WorkResult::Ready && run.outcome.verification
        == VerificationState::Failed {
        "Verification failed"@
    } else if run.outcome.work_result == WorkResult::Ready {
        "Ready for review"@
    } else {
        "Work stopped; inspect verification and attempt details"@
    }
}

/// Puts the question that a run waits on, if it waits on one.
pub(crate) fn put_question(run: &RunRecord) -> (r: Option<String>)
    ensures
        match waiting_question(*run) {
            Some(q) => r matches Some(text) && text@ == question_text(*run, q),
            None => r is None,
        },
{
    match &run.phase3 {
        Some(p) => {
            let n = p.questions.len();
            if n > 0 && p.questions[n - 1].state == QuestionState::Pending {
                let q = &p.questions[n - 1];
                let mut text = q.report.question.clone();
                text.push_str("\nQuestion ");
                text.push_str(q.id.as_str());
                text.push_str(" (revision ");
                text.push_str(decimal_of(q.revision).as_str());
                text.push_str(") — answer with dispatch answer ");
                text.push_str(run.id.as_str());
                text.push_str(" ");
                text.push_str(q.id.as_str());
                text.push_str(" --revision ");
                text.push_str(decimal_of(q.revision).as_str());
                text.push_str(" --answer <text>");
                Some(text)
            } else {
                None
            }
        },
        None => None,
    }
}

/// Reports that a run stopped without a result.
pub(crate) fn put_stopped(run: &RunRecord) -> (r: String)
    ensures
        r@ == stopped_text(*run),
{
    let mut text = "Work stopped: ".to_owned();
    match &run.phase3 {
        Some(p) => match p.failure {
            Some(failure) => {
                text.push_str("Some(");
                text.push_str(failure.variant_name());
                text.push_str(")");
            },
            None => {
                text.push_str("None");
            },
        },
        None => {
            text.push_str("None");
        },
    }
    assert(text@ =~= stopped_text(*run));
    text
}

/// What a run reports first: the question it waits on, its result, or that it stopped.
pub fn emit(run: &RunRecord) -> (r: Headline)
    ensures
        match waiting_question(*run) {
            Some(q) => r matches Headline::Question(text) && text@ == question_text(*run, q),
            None => if run.candidates@.len() > 0 {
                r matches Headline::Result(text) && text@ == heading(*run)
            } else {
                r matches Headline::Stopped(text) && text@ == stopped_text(*run)
            },
        },
{
    if let Some(question) = put_question(run) {
        return Headline::Question(question);
    }
    if run.candidates.len() == 0 {
        return Headline::Stopped(put_stopped(run));
    }
    let reviewed = run.outcome.review == ReviewState::Accepted || run.outcome.review
        == ReviewState::Rejected;
    let ready = run.outcome.work_result == WorkResult::Ready;
    Headline::Result(
        if reviewed {
            "Reviewed".to_owned()
        } else if ready && run.outcome.verification == VerificationState::Failed {
            "Verification failed".to_owned()
        } else if ready {
            "Ready for review".to_owned()
        } else {
            "Work stopped; inspect verification and attempt details".to_owned()
        },
    )
}

/// The text or what stands for it where there is none.
pub open spec fn text_or(s: Option<String>, other: Seq<char>) -> Seq<char> {
    match s {
        Some(text) => text@,
        None => other,
    }
}

/// How an attempt is reported.
pub open spec fn attempt_line(a: AttemptRecord) -> Seq<char> {
    "  Attempt "@ + decimal(a.ordinal as nat) + ": "@ + text_or(a.resolved_model, "unknown"@) + " / "@
        + text_or(a.resolved_effort, "unknown"@) + " — "@ + a.outcome@ + (match a.detail.reason {
        Some(reason) => " ("@ + reason@ + ")"@,
        None => Seq::empty(),
    })
}

/// The lines that follow: one per attempt, and how many there were.
pub open spec fn attempt_lines(run: RunRecord) -> Seq<Seq<char>> {
    run.attempts@.map_values(|a: AttemptRecord| attempt_line(a)).push(
        decimal(run.attempts@.len()) + " attempt(s); final attempt: "@ + (match run.phase3 {
            Some(p) => text_or(p.final_attempt_id, "none"@),
            None => "none"@,
        }),
    )
}

fn write_attempt(a: &AttemptRecord) -> (r: String)
    ensures
        r@ == attempt_line(*a),
{
    let mut text = "  Attempt ".to_owned();
    text.push_str(decimal_of(a.ordinal as u64).as_str());
    text.push_str(": ");
    match &a.resolved_model {
        Some(model) => text.push_str(model.as_str()),
        None => text.push_str("unknown"),
    }
    text.push_str(" / ");
    match &a.resolved_effort {
        Some(effort) => text.push_str(effort.as_str()),
        None => text.push_str("unknown"),
    }
    text.push_str(" — ");
    text.push_str(a.outcome.as_str());
    if let Some(reason) = &a.detail.reason {
        text.push_str(" (");
        text.push_str(reason.as_str());
        text.push_str(")");
    }
    assert(text@ =~= attempt_line(*a));
    text
}

/// What a run reports of its attempts.
pub fn attempts_report(run: &RunRecord) -> (r: Vec<String>)
    ensures
        texts(r@) == attempt_lines(*run),
{
    let mut out: Vec<String> = Vec::new();
    let mut i: usize = 0;
    while i < run.attempts.len()
        invariant
            i <= run.attempts.len(),
            out@.len() == i,
            forall|k: int| 0 <= k < i ==> (#[trigger] out@[k])@ == attempt_line(run.attempts@[k]),
        decreases run.attempts.len() - i,
    {
        out.push(write_attempt(&run.attempts[i]));
        i += 1;
    }
    let n: usize = run.attempts.len();
    let mut last = decimal_of(n as u64);
    last.push_str(" attempt(s); final attempt: ");
    match &run.phase3 {
        Some(p) => match &p.final_attempt_id {
            Some(id) => last.push_str(id.as_str()),
            None => last.push_str("none"),
        },
        None => last.push_str("none"),
    }
    assert(last@ =~= attempt_lines(*run).last());
    out.push(last);
    assert(texts(out@) =~= attempt_lines(*run));
    out
}

/// A command to answer or cancel a question. There is no caller-supplied actor: it is authorized by the
/// local identity that owns the run.
#[derive(Debug, Clone, PartialEq, Eq)]
pub struct QuestionCommand {
    pub run_id: String,
    pub question_id: String,
    pub revision: u64,
    pub generation: u32,
}

/// The first question from `from` on with an identifier.
pub open spec fn question_with(questions: Seq<Clarification>, id: Seq<char>, from: int) -> Option<int>
    decreases questions.len() - from,
{
    if from < 0 || from >= questions.len() {
        None
    } else if questions[from].id@ == id {
        Some(from)
    } else {
        question_with(questions, id, from + 1)
    }
}

/// Whether a run waits for an answer.
pub open spec fn awaits_answer(run: RunRecord) -> bool {
    &&& run.outcome.lifecycle == LifecycleState::Waiting
    &&& run.outcome.waiting_on == WaitingOn::Human
    &&& run.outcome.review != ReviewState::Rejected
    &&& run.outcome.work_result != WorkResult::Cancelled
}

/// Why a command on a question is refused, if it is.
pub open spec fn question_refusal(
    run: RunRecord,
    command: QuestionCommand,
    answer: Option<Seq<char>>,
    directory_uid: u32,
    uid: u32,
) -> Option<Seq<char>> {
    match run.phase3 {
        None => Some("run has no clarification policy"@),
        Some(policy) => if directory_uid != uid {
            Some("local caller does not own the run"@)
        } else if policy.owner_uid != uid {
            Some("unauthorized local caller"@)
        } else if !awaits_answer(run) {
            Some("run is not awaiting an answer"@)
        } else {
            match question_with(policy.questions@, command.question_id@, 0) {
                None => Some("wrong question"@),
                Some(k) => {
                    let q = policy.questions@[k];
                    if q.run_id@ != command.run_id@ || q.revision != command.revision || q.generation
                        != command.generation || q.state != QuestionState::Pending {
                        Some("stale, duplicate, or wrong-run question command"@)
                    } else if answer is Some && (is_blank(answer->0) || byte_len(answer->0) > 16_384) {
                        Some("invalid answer"@)
                    } else {
                        None
                    }
                },
            }
        },
    }
}

/// The questions of a run after one of them was answered or cancelled.
pub open spec fn resolved_questions(
    new: Seq<Clarification>,
    was: Seq<Clarification>,
    k: int,
    answer: Option<String>,
    uid: u32,
    actor: Option<String>,
    now: i64,
) -> bool {
    new == was.update(
        k,
        Clarification {
            state: (if answer is Some {
                QuestionState::Answered
            } else {
                QuestionState::Cancelled
            }),
            answer,
            revision: (was[k].revision + 1) as u64,
            resolved_at: Some(now),
            actor_uid: Some(uid),
            actor,
            ..was[k]
        },
    )
}

/// A run after one of its questions was answered or cancelled, but for its policy: an answered run is
/// prepared again, a cancelled one is over.
pub open spec fn after_resolution(
    run: RunRecord,
    answered: bool,
    policy: GoalExecution,
    now: i64,
) -> RunRecord {
    if answered {
        RunRecord {
            outcome: RunOutcome {
                waiting_on: WaitingOn::Nothing,
                lifecycle: LifecycleState::Preparing,
                phase: RunPhase::Preparing,
                ..run.outcome
            },
            phase3: Some(policy),
            ..run
        }
    } else {
        RunRecord {
            outcome: RunOutcome {
                waiting_on: WaitingOn::Nothing,
                lifecycle: LifecycleState::Finished,
                work_result: WorkResult::Cancelled,
                phase: RunPhase::Finished,
                ..run.outcome
            },
            status: RunStatus::Interrupted,
            completed_at: Some(now),
            phase3: Some(policy),
            ..run
        }
    }
}

/// What an answer or a cancellation makes of a run and of its question.
pub open spec fn resolves(
    new: RunRecord,
    run: RunRecord,
    command: QuestionCommand,
    answer: Option<String>,
    uid: u32,
    actor: Option<String>,
    supervisor: ProcessIdentity,
    now: i64,
) -> bool {
    let was = run.phase3->0;
    let policy = new.phase3->0;
    &&& new == after_resolution(run, answer is Some, policy, now)
    &&& policy == (if answer is Some {
        GoalExecution { questions: policy.questions, supervisor: Some(supervisor), ..was }
    } else {
        GoalExecution { questions: policy.questions, failure: Some(FailureKind::Cancelled), ..was }
    })
    &&& question_with(was.questions@, command.question_id@, 0) matches Some(k) && resolved_questions(
        policy.questions@,
        was.questions@,
        k,
        answer,
        uid,
        actor,
        now,
    )
}

/// Whether every question of a run can still change.
pub open spec fn questions_open_ended(run: RunRecord) -> bool {
    run.phase3 matches Some(p) ==> forall|i: int|
        0 <= i < p.questions@.len() ==> (#[trigger] p.questions@[i]).revision < u64::MAX
}

fn find_question(questions: &Vec<Clarification>, id: &str) -> (r: Option<usize>)
    ensures
        match r {
            Some(k) => question_with(questions@, id@, 0) == Some(k as int) && k < questions@.len(),
            None => question_with(questions@, id@, 0) is None,
        },
{
    let mut i: usize = 0;
    while i < questions.len()
        invariant
            i <= questions.len(),
            question_with(questions@, id@, 0) == question_with(questions@, id@, i as int),
        decreases questions.len() - i,
    {
        if same(questions[i].id.as_str(), id) {
            return Some(i);
        }
        i += 1;
    }
    None
}

/// Answers or cancels a pending question. `directory_uid` owns the run's directory, `uid` is the caller,
/// `actor` the machine identity that acts for it, `supervisor` the process that goes on with an answered
/// run.
pub fn resolve(
    run: &mut RunRecord,
    command: &QuestionCommand,
    answer: Option<String>,
    directory_uid: u32,
    uid: u32,
    actor: Option<String>,
    supervisor: ProcessIdentity,
    now: i64,
) -> (r: Result<(), String>)
    requires
        questions_open_ended(*old(run)),
    ensures
        match question_refusal(*old(run), *command, optional_view(answer), directory_uid, uid) {
            Some(reason) => r matches Err(e) && e@ == reason && *final(run) == *old(run),
            None => r is Ok && resolves(
                *final(run),
                *old(run),
                *command,
                answer,
                uid,
                actor,
                supervisor,
                now,
            ),
        },
{
    let awaiting = run.outcome.lifecycle == LifecycleState::Waiting && run.outcome.waiting_on
        == WaitingOn::Human && run.outcome.review != ReviewState::Rejected && run.outcome.work_result
        != WorkResult::Cancelled;
    let found = match &run.phase3 {
        None => {
            return Err("run has no clarification policy".to_owned());
        },
        Some(policy) => {
            if directory_uid != uid {
                return Err("local caller does not own the run".to_owned());
            }
            if policy.owner_uid != uid {
                return Err("unauthorized local caller".to_owned());
            }
            if !awaiting {
                return Err("run is not awaiting an answer".to_owned());
            }
            match find_question(&policy.questions, command.question_id.as_str()) {
                None => {
                    return Err("wrong question".to_owned());
                },
                Some(k) => {
                    let q = &policy.questions[k];
                    if !same(q.run_id.as_str(), command.run_id.as_str()) || q.revision
                        != command.revision || q.generation != command.generation || q.state
                        != QuestionState::Pending {
                        return Err("stale, duplicate, or wrong-run question command".to_owned());
                    }
                    if let Some(value) = &answer {
                        if blank(value.as_str()) || bytes_in(value.as_str()) > 16_384 {
                            return Err("invalid answer".to_owned());
                        }
                    }
                    k
                },
            }
        },
    };
    let answered = answer.is_some();
    if let Some(policy) = &mut run.phase3 {
        assert(policy.questions@[found as int].revision < u64::MAX);
        let question = &mut policy.questions[found];
        question.state = if answered {
            QuestionState::Answered
        } else {
            QuestionState::Cancelled
        };
        question.answer = answer;
        question.revision = question.revision + 1;
        question.resolved_at = Some(now);
        question.actor_uid = Some(uid);
        question.actor = actor;
        if answered {
            policy.supervisor = Some(supervisor);
        } else {
            policy.failure = Some(FailureKind::Cancelled);
        }
    }
    run.outcome.waiting_on = WaitingOn::Nothing;
    if answered {
        run.outcome.lifecycle = LifecycleState::Preparing;
        run.outcome.phase = RunPhase::Preparing;
    } else {
        run.outcome.lifecycle = LifecycleState::Finished;
        run.outcome.work_result = WorkResult::Cancelled;
        run.outcome.phase = RunPhase::Finished;
        run.status = RunStatus::Interrupted;
        run.completed_at = Some(now);
    }
    Ok(())
}

/// Answers a pending question; the run can then be driven on.
pub fn answer_question(
    run: &mut RunRecord,
    command: &QuestionCommand,
    answer: String,
    directory_uid: u32,
    uid: u32,
    supervisor: ProcessIdentity,
    now: i64,
) -> (r: Result<(), String>)
    requires
        questions_open_ended(*old(run)),
    ensures
        match question_refusal(*old(run), *command, Some(answer@), directory_uid, uid) {
            Some(reason) => r matches Err(e) && e@ == reason && *final(run) == *old(run),
            None => r is Ok && resolves(
                *final(run),
                *old(run),
                *command,
                Some(answer),
                uid,
                None,
                supervisor,
                now,
            ),
        },
{
    resolve(run, command, Some(answer), directory_uid, uid, None, supervisor, now)
}

/// Cancels a pending question, and with it the run.
pub fn cancel_question(
    run: &mut RunRecord,
    command: &QuestionCommand,
    directory_uid: u32,
    uid: u32,
    supervisor: ProcessIdentity,
    now: i64,
) -> (r: Result<(), String>)
    requires
        questions_open_ended(*old(run)),
    ensures
        match question_refusal(*old(run), *command, None, directory_uid, uid) {
            Some(reason) => r matches Err(e) && e@ == reason && *final(run) == *old(run),
            None => r is Ok && resolves(
                *final(run),
                *old(run),
                *command,
                None,
                uid,
                None,
                supervisor,
                now,
            ),
        },
{
    resolve(run, command, None, directory_uid, uid, None, supervisor, now)
}

/// A question is resolved once: whatever is done with it, the same command is refused afterwards.
pub proof fn questions_are_resolved_once(
    run: RunRecord,
    new: RunRecord,
    command: QuestionCommand,
    answer: Option<String>,
    again: Option<Seq<char>>,
    uid: u32,
    actor: Option<String>,
    supervisor: ProcessIdentity,
    now: i64,
)
    requires
        question_refusal(run, command, optional_view(answer), uid, uid) is None,
        resolves(new, run, command, answer, uid, actor, supervisor, now),
    ensures
        question_refusal(new, command, again, uid, uid) is Some,
        !awaits_answer(new),
{
}

/// Only the owner of a run, at the right revision of a pending question of it, resolves the question.
pub proof fn only_the_owner_resolves(
    run: RunRecord,
    command: QuestionCommand,
    answer: Option<Seq<char>>,
    directory_uid: u32,
    uid: u32,
)
    requires
        question_refusal(run, command, answer, directory_uid, uid) is None,
    ensures
        directory_uid == uid,
        run.phase3 matches Some(p) && p.owner_uid == uid && (question_with(
            p.questions@,
            command.question_id@,
            0,
        ) matches Some(k) && p.questions@[k].revision == command.revision && p.questions@[k].state
            == QuestionState::Pending),
        answer matches Some(text) ==> !is_blank(text),
{
}

/// A cancelled question ends its run; an answered one lets it be driven on.
pub proof fn answers_continue_and_cancellations_end(
    run: RunRecord,
    new: RunRecord,
    command: QuestionCommand,
    answer: Option<String>,
    uid: u32,
    actor: Option<String>,
    supervisor: ProcessIdentity,
    now: i64,
)
    requires
        question_refusal(run, command, optional_view(answer), uid, uid) is None,
        resolves(new, run, command, answer, uid, actor, supervisor, now),
    ensures
        executes(new) == (answer is Some),
        answer is None ==> new.outcome.work_result == WorkResult::Cancelled,
{
}

/// How the work on a goal begins.
#[derive(Debug, Clone, PartialEq, Eq)]
pub enum Opening {
    /// It does not: the work is closed, or its route is lost.
    Refused(String),
    /// It stops before any attempt.
    Stop(FailureKind, String),
    /// An attempt follows, for this reason where it continues earlier ones.
    Go(Option<String>),
}

/// Whether the next attempt of a run has lost the decision that it would go by.
pub open spec fn route_is_lost(run: RunRecord) -> bool {
    run.allocation is Some && run.attempts@.len() > 0 && run.attempts@.last().detail.decision is None
}

/// Whether `r` is how the work on a goal begins.
pub open spec fn opens(run: RunRecord, r: Opening) -> bool {
    if run.outcome.review == ReviewState::Rejected || run.outcome.work_result
        == WorkResult::Cancelled {
        r matches Opening::Refused(text) && text@ == "closed work cannot continue"@
    } else if baseline_blocks(run) {
        r matches Opening::Stop(failure, text) && failure == FailureKind::BaselineInfrastructure
            && text@ == "baseline checks did not pass; no model escalation"@
    } else if route_is_lost(run) {
        r matches Opening::Refused(text) && text@ == "continuation route missing"@
    } else if run.attempts@.len() == 0 {
        r == Opening::Go(None)
    } else {
        r matches Opening::Go(Some(text)) && text@ == "clarification_answer"@
    }
}

/// How the work on a goal begins, or goes on after an answer.
pub fn begin(run: &RunRecord) -> (r: Opening)
    ensures
        opens(*run, r),
{
    if let Err(error) = ensure_open(run) {
        return Opening::Refused(error);
    }
    if baseline_unusable(run) {
        return Opening::Stop(
            FailureKind::BaselineInfrastructure,
            "baseline checks did not pass; no model escalation".to_owned(),
        );
    }
    if let Err(error) = route(run) {
        return Opening::Refused(error);
    }
    if run.attempts.len() == 0 {
        Opening::Go(None)
    } else {
        Opening::Go(Some("clarification_answer".to_owned()))
    }
}

/// What follows an attempt that returned.
#[derive(Debug, Clone, PartialEq, Eq)]
pub enum Turn {
    /// The goal stops for this failure, with this message.
    Stop(FailureKind, String),
    /// Its owner is asked.
    Ask(CheckpointReport),
    /// A stronger resource is looked for.
    Recover,
    /// The work is delivered for review.
    Deliver,
}

/// What follows an attempt that returned: a failure that stops the goal comes first, then a question,
/// then the delivery with whatever its checks say.
pub fn next_turn(
    run: &RunRecord,
    execution: Execution,
    cancelled: bool,
    stale: Option<&str>,
    now: i64,
) -> (r: Turn)
    requires
        run.phase3 is Some,
    ensures
        match stops(*run, execution, cancelled, stale is Some, now) {
            Some(failure) => r matches Turn::Stop(f, text) && f == failure && text@ == stop_text(
                optional_str(stale),
                failure,
                optional_view(execution.candidate.error),
            ),
            None => match execution.checkpoint {
                Checkpoint::Question(report) => r == Turn::Ask(report),
                _ => r == Turn::Deliver,
            },
        },
{
    if let Some(failure) = stopped_by(run, &execution, cancelled, stale.is_some(), now) {
        let error = match &execution.candidate.error {
            Some(text) => Some(text.as_str()),
            None => None,
        };
        return Turn::Stop(failure, stop_message(stale, failure, error));
    }
    match execution.checkpoint {
        Checkpoint::Question(report) => Turn::Ask(report),
        _ => Turn::Deliver,
    }
}

/// A question is put only while an answer can still be acted on: the goal was not cancelled, and it has
/// an attempt left. It is put only after an attempt that completed, and never while its agent may still be
/// running.
pub proof fn questions_leave_room_for_an_answer(
    run: RunRecord,
    execution: Execution,
    cancelled: bool,
    stale: bool,
    now: i64,
)
    requires
        run.phase3 is Some,
        stops(run, execution, cancelled, stale, now) is None,
        execution.checkpoint is Question,
    ensures
        !cancelled,
        run.attempts@.len() < invocation_limit(run.phase3->0),
        execution.candidate.status == CandidateStatus::Completed,
        execution.cleanup_confirmed,
{
}

/// Starts the next attempt of a run: it is made from the input, and the run is launched. A run that cannot
/// have one is left as it is.
pub fn start_attempt(
    run: &mut RunRecord,
    decision: Option<AllocationDecision>,
    reason: Option<String>,
    id: &str,
    input: &str,
    paths: &AttemptPaths,
    now: i64,
) -> (r: Result<CandidateRecord, String>)
    requires
        old(run).attempts@.len() < u32::MAX,
    ensures
        match r {
            Ok(c) => {
                &&& old(run).phase3 is Some
                &&& runs_on(decision, old(run).phase3->0).0 matches Some(harness) && fresh_candidate(
                    c,
                    id@,
                    harness,
                    *paths,
                )
                &&& final(run).candidates@.len() == 1
                &&& same_candidate(c, final(run).candidates@[0])
                &&& final(run).attempts@.len() == old(run).attempts@.len() + 1
                &&& final(run).attempts@.drop_last() == old(run).attempts@
                &&& fresh_attempt(
                    final(run).attempts@.last(),
                    *old(run),
                    decision,
                    reason,
                    id@,
                    input@,
                    *paths,
                    now,
                )
                &&& *final(run) == after_launch(
                    RunRecord {
                        attempts: final(run).attempts,
                        candidates: final(run).candidates,
                        ..*old(run)
                    },
                )
            },
            Err(e) => {
                &&& *final(run) == *old(run)
                &&& if old(run).phase3 is None {
                    e@ == "native run without execution policy"@
                } else {
                    &&& runs_on(decision, old(run).phase3->0).0 is None
                    &&& e@ == "native run without an agent"@
                }
            },
        },
{
    let candidate = match prepare_input(run, decision, reason, id, input, paths, now) {
        Ok(candidate) => candidate,
        Err(e) => {
            return Err(e);
        },
    };
    launch(run);
    Ok(candidate)
}

/// The last look before an attempt is handed to its agent: cancelled work is stopped there.
pub fn hand_off(run: &mut RunRecord, cancelled: bool, alive: bool, launched: bool, now: i64) -> (r:
    Result<(), String>)
    requires
        old(run).phase3 is Some,
    ensures
        if cancelled {
            &&& r matches Err(e) && e@ == "cancelled before handoff"@
            &&& is_stopped(
                *final(run),
                *old(run),
                interruption(*old(run), now),
                alive,
                launched,
                now,
            )
        } else {
            r is Ok && *final(run) == *old(run)
        },
{
    if !cancelled {
        return Ok(());
    }
    let failure = interrupted(run, now);
    stop(run, failure, alive, launched, now);
    Err("cancelled before handoff".to_owned())
}

/// What an attempt that returned amounts to.
#[derive(Debug, Clone, PartialEq, Eq)]
pub struct Returned {
    /// What went wrong with it, its checks included.
    pub failure: Option<FailureKind>,
    /// What follows it.
    pub turn: Turn,
}

/// What went wrong with an attempt that returned: what stops the goal, or else what its checks say.
pub open spec fn returned_failure(
    run: RunRecord,
    execution: Execution,
    cancelled: bool,
    stale: bool,
    now: i64,
) -> Option<FailureKind> {
    match stops(run, execution, cancelled, stale, now) {
        Some(failure) => Some(failure),
        None => verdict(run.baseline_checks@, execution.candidate.checks@),
    }
}

/// What follows an attempt that returned.
pub open spec fn follows(
    turn: Turn,
    run: RunRecord,
    execution: Execution,
    cancelled: bool,
    stale: Option<Seq<char>>,
    now: i64,
) -> bool {
    match stops(run, execution, cancelled, stale is Some, now) {
        Some(failure) => turn matches Turn::Stop(f, text) && f == failure && text@ == stop_text(
            stale,
            failure,
            optional_view(execution.candidate.error),
        ),
        None => match execution.checkpoint {
            Checkpoint::Question(report) => turn == Turn::Ask(report),
            _ => turn == Turn::Deliver,
        },
    }
}

/// Takes an attempt that returned into its run: its candidate, what became of it, and what follows.
/// `refreshed` is what the candidate makes of the outcome.
pub fn take_attempt(
    run: &mut RunRecord,
    execution: Execution,
    cancelled: bool,
    stale: Option<&str>,
    refreshed: RunOutcome,
    now: i64,
) -> (r: Returned)
    requires
        old(run).phase3 is Some,
        old(run).attempts@.len() > 0,
    ensures
        r.failure == returned_failure(*old(run), execution, cancelled, stale is Some, now),
        follows(r.turn, *old(run), execution, cancelled, optional_str(stale), now),
        has_recorded(
            *final(run),
            after_return(*old(run), final(run).candidates, refreshed),
            execution.candidate,
            r.failure,
        ),
        final(run).candidates@.len() == 1,
        same_candidate(final(run).candidates@[0], execution.candidate),
{
    let failure = match stopped_by(run, &execution, cancelled, stale.is_some(), now) {
        Some(failure) => Some(failure),
        None => verification_failure(run, &execution.candidate),
    };
    take_return(run, &execution.candidate, refreshed);
    finish_attempt(run, &execution.candidate, failure);
    let turn = next_turn(run, execution, cancelled, stale, now);
    Returned { failure, turn }
}

/// Does what follows an attempt that returned. `id` names the question that may be put, `refreshed` is
/// what the delivery makes of the outcome.
pub fn conclude(
    run: &mut RunRecord,
    returned: Returned,
    refreshed: RunOutcome,
    alive: bool,
    launched: bool,
    id: &str,
    now: i64,
)
    requires
        old(run).phase3 is Some,
        old(run).attempts@.len() > 0,
        old(run).candidates@.len() > 0,
        returned.turn !is Recover,
    ensures
        match returned.turn {
            Turn::Stop(failure, _) => is_stopped(
                *final(run),
                *old(run),
                failure,
                alive,
                launched,
                now,
            ),
            Turn::Ask(report) => has_asked(*final(run), *old(run), report, id@, now),
            _ => has_delivered(*final(run), *old(run), returned.failure, refreshed, now),
        },
{
    match returned.turn {
        Turn::Stop(failure, _) => stop(run, failure, alive, launched, now),
        Turn::Ask(report) => ask(run, report, id, now),
        _ => deliver(run, returned.failure, refreshed, now),
    }
}

/// Work of an attempt that completed is never lost: unless the goal was stopped or a question is put, it is
/// delivered, whatever its checks say, and what they say is kept with it.
pub proof fn completed_work_is_delivered_whatever_its_checks_say(
    run: RunRecord,
    execution: Execution,
    turn: Turn,
    stale: Option<Seq<char>>,
    now: i64,
)
    requires
        run.phase3 is Some,
        execution.cleanup_confirmed,
        execution.candidate.status == CandidateStatus::Completed,
        execution.checkpoint is Nothing,
        follows(turn, run, execution, false, stale, now),
    ensures
        turn == Turn::Deliver,
        returned_failure(run, execution, false, stale is Some, now) == verdict(
            run.baseline_checks@,
            execution.candidate.checks@,
        ),
{
}

} // verus!
