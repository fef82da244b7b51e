//! Applying a finished candidate to the source: by a person's decision, or by policy.
//!
//! Both ways go through [`apply_locked`]. What differs is the authority: a human decision records
//! acceptance, a policy never does.

use vstd::prelude::*;
use vstd::utf8::*;

use crate::planning::{delivery_error, planning_of, verify_delivery, ArtifactFacts};

use crate::text::{contains_text, decimal, decimal_of, occurs};
use crate::digest::{hash_text, text_hash};
use crate::record::{
    ApplicationState, AppliedBy, CoherenceRecord, Decision, ReviewState, RunOutcome, RunPhase,
    RunRecord, RunStatus, Validity,
};

verus! {

/// Who is applying. An application by policy is never recorded as human acceptance.
#[derive(Debug, Clone, Copy, PartialEq, Eq, Structural)]
pub enum ApplyAuthority {
    /// A person accepted the result, or asked for it to be applied.
    Human,
    /// The auto-apply policy of the owning session or invocation.
    AutoApply,
}

impl ApplyAuthority {
    /// What is recorded of who applied.
    pub open spec fn recorded(self) -> AppliedBy {
        match self {
            ApplyAuthority::Human => AppliedBy::Human,
            ApplyAuthority::AutoApply => AppliedBy::AutoApply,
        }
    }

    /// What is recorded of who applied.
    pub fn applied_by(self) -> (r: AppliedBy)
        ensures
            r == self.recorded(),
    {
        match self {
            ApplyAuthority::Human => AppliedBy::Human,
            ApplyAuthority::AutoApply => AppliedBy::AutoApply,
        }
    }
}

/// What an application changed.
#[derive(Debug, Clone, PartialEq, Eq)]
pub struct ApplyReport {
    pub candidate_label: String,
    pub files_changed: u64,
}

/// What an automatic application did.
#[derive(Debug, Clone, PartialEq, Eq)]
pub enum ApplyOutcome {
    /// The source was patched; `validity` is present when the world had moved.
    Applied { report: ApplyReport, validity: Option<Validity> },
    /// The look at the source, or the authorization on top of it, refused. The source is unchanged and the run
    /// remains reviewable.
    Blocked { reason: String, validity: Option<Validity> },
    /// The run was not eligible; nothing ran.
    Skipped { reason: String },
    /// The application itself failed after authorization.
    Failed { error: String },
}

/// Whether a run remembers a verdict on its source: the verdict itself, and when the work first became
/// invalid.
pub open spec fn remembers(new: RunRecord, run: RunRecord, validity: Validity) -> bool {
    &&& new == (RunRecord { coherence: new.coherence, ..run })
    &&& new.coherence matches Some(record) && {
        &&& record.validity == Some(validity)
        &&& match run.coherence {
            Some(was) => record == (CoherenceRecord {
                validity: Some(validity),
                first_invalid_at: first_invalid(was.first_invalid_at, validity),
                ..was
            }),
            None => {
                &&& record.version == 1
                &&& record.refreshed_from is None
                &&& record.facts@.len() == 0
                &&& record.first_invalid_at == first_invalid(None, validity)
            },
        }
    }
}

/// When work first became invalid, once another verdict is known: the earliest such time stays.
pub open spec fn first_invalid(known: Option<i64>, validity: Validity) -> Option<i64> {
    if known is None && validity.decision != Decision::Continue {
        Some(validity.evaluated_at)
    } else {
        known
    }
}

/// Stores the latest verdict on a run, remembering when its work first became invalid.
pub fn remember_validity(run: &mut RunRecord, validity: Validity)
    ensures
        remembers(*final(run), *old(run), validity),
{
    let invalid = validity.decision != Decision::Continue;
    let at = validity.evaluated_at;
    match &mut run.coherence {
        Some(record) => {
            if invalid && record.first_invalid_at.is_none() {
                record.first_invalid_at = Some(at);
            }
            record.validity = Some(validity);
        },
        None => {
            run.coherence =
                Some(
                    CoherenceRecord {
                        version: 1,
                        refreshed_from: None,
                        facts: Vec::new(),
                        validity: Some(validity),
                        first_invalid_at: if invalid {
                            Some(at)
                        } else {
                            None
                        },
                    },
                );
        },
    }
}

/// The time at which work first became invalid is never changed by a later verdict.
pub proof fn first_invalid_time_stays(a: RunRecord, b: RunRecord, validity: Validity, at: i64)
    requires
        remembers(b, a, validity),
        a.coherence matches Some(record) && record.first_invalid_at == Some(at),
    ensures
        b.coherence matches Some(record) && record.first_invalid_at == Some(at),
{
}

/// Whether a run can be applied: it is completed and unapplied.
pub open spec fn applicable(run: RunRecord) -> bool {
    run.status == RunStatus::ReadyForEvaluation || run.status == RunStatus::Evaluated
}

/// What is said of a run that cannot be applied.
pub open spec fn not_applicable(run: RunRecord) -> Seq<char> {
    "run "@ + run.id@ + " is "@ + run.status.name()
        + "; apply requires a completed, unapplied run"@
}

fn refuse(run: &RunRecord) -> (r: String)
    ensures
        r@ == not_applicable(*run),
{
    let mut text = "run ".to_owned();
    text.push_str(run.id.as_str());
    text.push_str(" is ");
    text.push_str(run.status.as_str());
    text.push_str("; apply requires a completed, unapplied run");
    text
}

/// Refuses to apply a run that is not completed and unapplied, or whose delivery cannot be relied on.
/// `facts`, `patch` and `fingerprint` say what is found of the delivery.
pub fn admit_apply(
    run: &RunRecord,
    facts: &Vec<ArtifactFacts>,
    patch: &Vec<u8>,
    fingerprint: &str,
) -> (r: Result<(), String>)
    requires
        planning_of(*run) matches Some(p) ==> facts@.len() == p.artifacts@.len(),
    ensures
        if !applicable(*run) {
            r matches Err(e) && e@ == not_applicable(*run)
        } else {
            match delivery_error(*run, facts@, patch@, fingerprint@) {
                Some(message) => r matches Err(e) && e@ == message,
                None => r is Ok,
            }
        },
{
    if run.status != RunStatus::ReadyForEvaluation && run.status != RunStatus::Evaluated {
        return Err(refuse(run));
    }
    verify_delivery(run, facts, patch, fingerprint)
}

/// The name of the lock that keeps two applications to one source apart.
pub fn source_lock(source_path: &str) -> (r: String)
    ensures
        r@ == "source-"@ + hash_text(encode_utf8(source_path@)) + ".lock"@,
{
    let mut name = "source-".to_owned();
    let hash = text_hash(source_path);
    name.push_str(hash.as_str());
    name.push_str(".lock");
    name
}

/// How the patch of a candidate went on to the source.
#[derive(Debug, Clone, PartialEq, Eq)]
pub enum Attempt {
    /// The source was patched; the verdict is there when one was asked for.
    Patched { report: ApplyReport, validity: Option<Validity> },
    /// Refused: the work is not valid against the source as it is.
    Blocked { message: String, validity: Validity },
    /// Something else failed.
    Failed { message: String },
}

/// Whether a message tells of a source that changed.
pub open spec fn tells_of_drift(message: Seq<char>) -> bool {
    occurs(message, "source changed"@) || occurs(message, "source has changed"@) || occurs(
        message,
        "source drift"@,
    )
}

/// A run after an application that failed, but for what it remembers of its source.
pub open spec fn after_failure(run: RunRecord, drifted: bool) -> RunRecord {
    RunRecord {
        outcome: RunOutcome {
            application: (if drifted {
                ApplicationState::BlockedBySourceDrift
            } else {
                ApplicationState::Failed
            }),
            phase: RunPhase::Finished,
            ..run.outcome
        },
        ..run
    }
}

/// A run after an application, but for what it remembers of its source. Only a human decision marks the
/// review as accepted.
pub open spec fn after_apply(run: RunRecord, label: String, authority: ApplyAuthority) -> RunRecord {
    RunRecord {
        applied_candidate: Some(label),
        status: RunStatus::Applied,
        outcome: RunOutcome {
            review: (if authority == ApplyAuthority::Human {
                ReviewState::Accepted
            } else {
                run.outcome.review
            }),
            application: ApplicationState::Applied,
            applied_by: Some(authority.recorded()),
            phase: RunPhase::Finished,
            ..run.outcome
        },
        ..run
    }
}

/// Whether a run remembers a verdict, where there is one.
pub open spec fn remembers_if(new: RunRecord, run: RunRecord, validity: Option<Validity>) -> bool {
    match validity {
        Some(v) => remembers(new, run, v),
        None => new == run,
    }
}

/// What is said of an application.
pub open spec fn applied_text(run: RunRecord, label: Seq<char>, report: ApplyReport) -> Seq<char> {
    "Applied Candidate "@ + label + " to "@ + run.source_path@ + " ("@ + decimal(
        report.files_changed as nat,
    ) + " file(s) changed)."@
}

/// What an application makes of a run.
pub open spec fn applies(
    new: RunRecord,
    run: RunRecord,
    label: String,
    attempt: Attempt,
    authority: ApplyAuthority,
) -> bool {
    match attempt {
        Attempt::Patched { report, validity } => remembers_if(
            new,
            after_apply(run, label, authority),
            validity,
        ),
        Attempt::Blocked { message, validity } => remembers(new, after_failure(run, true), validity),
        Attempt::Failed { message } => new == after_failure(run, tells_of_drift(message@)),
    }
}

/// Records an application of a run's candidate, and what it did to the source. `label` is the candidate's
/// own, `authority` names who is applying.
pub fn apply_locked(
    run: &mut RunRecord,
    label: String,
    attempt: Attempt,
    authority: ApplyAuthority,
) -> (r: Result<String, String>)
    ensures
        if !applicable(*old(run)) {
            &&& r matches Err(e) && e@ == not_applicable(*old(run))
            &&& *final(run) == *old(run)
        } else {
            &&& applies(*final(run), *old(run), label, attempt, authority)
            &&& match attempt {
                Attempt::Patched { report, .. } => r matches Ok(text) && text@ == applied_text(
                    *old(run),
                    label@,
                    report,
                ),
                Attempt::Blocked { message, .. } => r == Err::<String, String>(message),
                Attempt::Failed { message } => r == Err::<String, String>(message),
            }
        },
{
    if run.status != RunStatus::ReadyForEvaluation && run.status != RunStatus::Evaluated {
        return Err(refuse(run));
    }
    match attempt {
        Attempt::Patched { report, validity } => {
            let mut text = "Applied Candidate ".to_owned();
            text.push_str(label.as_str());
            text.push_str(" to ");
            text.push_str(run.source_path.as_str());
            text.push_str(" (");
            text.push_str(decimal_of(report.files_changed).as_str());
            text.push_str(" file(s) changed).");
            run.applied_candidate = Some(label);
            run.status = RunStatus::Applied;
            if authority == ApplyAuthority::Human {
                run.outcome.review = ReviewState::Accepted;
            }
            run.outcome.application = ApplicationState::Applied;
            run.outcome.applied_by = Some(authority.applied_by());
            run.outcome.phase = RunPhase::Finished;
            if let Some(validity) = validity {
                remember_validity(run, validity);
            }
            Ok(text)
        },
        Attempt::Blocked { message, validity } => {
            run.outcome.application = ApplicationState::BlockedBySourceDrift;
            run.outcome.phase = RunPhase::Finished;
            remember_validity(run, validity);
            Err(message)
        },
        Attempt::Failed { message } => {
            let drifted = contains_text(message.as_str(), "source changed") || contains_text(
                message.as_str(),
                "source has changed",
            ) || contains_text(message.as_str(), "source drift");
            run.outcome.application = if drifted {
                ApplicationState::BlockedBySourceDrift
            } else {
                ApplicationState::Failed
            };
            run.outcome.phase = RunPhase::Finished;
            Err(message)
        },
    }
}

/// Records an application that a person asked for.
pub fn apply(run: &mut RunRecord, label: String, attempt: Attempt) -> (r: Result<String, String>)
    ensures
        if !applicable(*old(run)) {
            &&& r matches Err(e) && e@ == not_applicable(*old(run))
            &&& *final(run) == *old(run)
        } else {
            &&& applies(*final(run), *old(run), label, attempt, ApplyAuthority::Human)
            &&& match attempt {
                Attempt::Patched { report, .. } => r matches Ok(text) && text@ == applied_text(
                    *old(run),
                    label@,
                    report,
                ),
                Attempt::Blocked { message, .. } => r == Err::<String, String>(message),
                Attempt::Failed { message } => r == Err::<String, String>(message),
            }
        },
{
    apply_locked(run, label, attempt, ApplyAuthority::Human)
}

/// Applies a run under the auto-apply policy. No surface asks for it yet: a run is reported as not
/// ready, and nothing is done.
pub fn auto_apply(run: &RunRecord) -> (r: ApplyOutcome)
    ensures
        r matches ApplyOutcome::Skipped { reason } && reason@ == "not_ready"@,
{
    ApplyOutcome::Skipped { reason: "not_ready".to_owned() }
}

/// An application by policy never records acceptance: the review stays exactly as it was.
pub proof fn policy_never_accepts(
    new: RunRecord,
    run: RunRecord,
    label: String,
    attempt: Attempt,
)
    requires
        applies(new, run, label, attempt, ApplyAuthority::AutoApply),
    ensures
        new.outcome.review == run.outcome.review,
        new.outcome.applied_by != Some(AppliedBy::Human) || new.outcome.applied_by
            == run.outcome.applied_by,
{
}

/// An application that did not go through leaves the run unapplied and reviewable.
pub proof fn refused_work_stays_reviewable(
    new: RunRecord,
    run: RunRecord,
    label: String,
    attempt: Attempt,
    authority: ApplyAuthority,
)
    requires
        applies(new, run, label, attempt, authority),
        applicable(run),
        !(attempt is Patched),
    ensures
        applicable(new),
        new.status == run.status,
        new.applied_candidate == run.applied_candidate,
        new.outcome.review == run.outcome.review,
        new.outcome.applied_by == run.outcome.applied_by,
        new.outcome.application != ApplicationState::Applied,
{
}

/// Work is applied once: a run that was applied is refused afterwards.
pub proof fn work_is_applied_once(
    new: RunRecord,
    run: RunRecord,
    label: String,
    attempt: Attempt,
    authority: ApplyAuthority,
)
    requires
        applies(new, run, label, attempt, authority),
        attempt is Patched,
    ensures
        !applicable(new),
        new.outcome.application == ApplicationState::Applied,
        new.outcome.applied_by == Some(authority.recorded()),
{
}

/// What is recorded of an application. One that went through names the candidate and who applied it, and only
/// a person accepts by it. One that the source stood in the way of is told apart from one that failed. Nothing
/// else of the run changes but what it remembers of its source.
pub proof fn an_application_is_recorded_truthfully(
    new: RunRecord,
    run: RunRecord,
    label: String,
    attempt: Attempt,
    authority: ApplyAuthority,
)
    requires
        applies(new, run, label, attempt, authority),
    ensures
        attempt is Patched ==> {
            &&& new.status == RunStatus::Applied
            &&& new.applied_candidate == Some(label)
            &&& new.outcome.application == ApplicationState::Applied
            &&& authority == ApplyAuthority::Human ==> new.outcome.applied_by == Some(AppliedBy::Human)
                && new.outcome.review == ReviewState::Accepted
            &&& authority == ApplyAuthority::AutoApply ==> new.outcome.applied_by == Some(
                AppliedBy::AutoApply,
            ) && new.outcome.review == run.outcome.review
        },
        attempt matches Attempt::Patched { validity, .. } ==> (validity is None ==> new.coherence
            == run.coherence) && (validity is Some ==> new.coherence is Some
            && new.coherence->0.validity == validity),
        attempt matches Attempt::Blocked { validity, .. } ==> new.outcome.application
            == ApplicationState::BlockedBySourceDrift && new.coherence is Some
            && new.coherence->0.validity == Some(validity),
        attempt matches Attempt::Failed { message } ==> new.coherence == run.coherence && (
        new.outcome.application == ApplicationState::BlockedBySourceDrift <==> occurs(
            message@,
            "source changed"@,
        ) || occurs(message@, "source has changed"@) || occurs(message@, "source drift"@)) && (
        new.outcome.application == ApplicationState::BlockedBySourceDrift || new.outcome.application
            == ApplicationState::Failed),
        !(attempt is Patched) ==> new.status == run.status && new.applied_candidate
            == run.applied_candidate && new.outcome.review == run.outcome.review
            && new.outcome.applied_by == run.outcome.applied_by,
        new.outcome.phase == RunPhase::Finished,
        new.outcome.lifecycle == run.outcome.lifecycle,
        new.outcome.work_result == run.outcome.work_result,
        new.outcome.verification == run.outcome.verification,
        new.id == run.id && new.task == run.task && new.source_path == run.source_path,
        new.candidates == run.candidates && new.attempts == run.attempts,
        new.attachment == run.attachment && new.phase3 == run.phase3,
{
}

/// Only a completed run that was not applied can be applied.
pub proof fn only_completed_runs_are_applicable(run: RunRecord)
    ensures
        applicable(run) <==> run.status == RunStatus::ReadyForEvaluation || run.status
            == RunStatus::Evaluated,
        run.status == RunStatus::Applied ==> !applicable(run),
{
}

} // verus!
