//! The records that runs are kept in: plain values with the fields the decisions read.
//!
//! Times are microseconds since the epoch. Paths are text.

use vstd::prelude::*;

use crate::planning::Planning;

use crate::text::copy_optional;
use crate::router::{AllocationDecision, ResourceChoice};
use crate::process::ProcessIdentity;
use crate::orchestrator::attach::AttachmentRecord;

verus! {

#[derive(Debug, Clone, Copy, PartialEq, Eq, Structural)]
pub enum RunStatus {
    Preparing,
    Running,
    ReadyForEvaluation,
    Evaluated,
    Applied,
    Failed,
    Interrupted,
    Deferred,
}

impl RunStatus {
    /// The name of the status.
    pub open spec fn name(self) -> Seq<char> {
        match self {
            RunStatus::Preparing => "preparing"@,
            RunStatus::Running => "running"@,
            RunStatus::ReadyForEvaluation => "ready_for_evaluation"@,
            RunStatus::Evaluated => "evaluated"@,
            RunStatus::Applied => "applied"@,
            RunStatus::Failed => "failed"@,
            RunStatus::Interrupted => "interrupted"@,
            RunStatus::Deferred => "deferred"@,
        }
    }

    /// The name of the status as records and messages write it.
    pub fn as_str(&self) -> (r: &'static str)
        ensures
            r@ == self.name(),
    {
        match self {
            RunStatus::Preparing => "preparing",
            RunStatus::Running => "running",
            RunStatus::ReadyForEvaluation => "ready_for_evaluation",
            RunStatus::Evaluated => "evaluated",
            RunStatus::Applied => "applied",
            RunStatus::Failed => "failed",
            RunStatus::Interrupted => "interrupted",
            RunStatus::Deferred => "deferred",
        }
    }
}

#[derive(Debug, Clone, Copy, PartialEq, Eq, Structural)]
pub enum RunMode {
    Native,
    Attached,
}

#[derive(Debug, Clone, Copy, PartialEq, Eq, Structural)]
pub enum LifecycleState {
    Preparing,
    Working,
    Waiting,
    Finished,
}

#[derive(Debug, Clone, Copy, PartialEq, Eq, Structural)]
pub enum WorkResult {
    Pending,
    Ready,
    Failed,
    Cancelled,
    Interrupted,
    Deferred,
}

#[derive(Debug, Clone, Copy, PartialEq, Eq, Structural)]
pub enum VerificationState {
    NotRun,
    NotConfigured,
    Passed,
    Failed,
    Inconclusive,
}

impl VerificationState {
    /// The word for it.
    pub open spec fn name(self) -> Seq<char> {
        match self {
            VerificationState::NotRun => "not_run"@,
            VerificationState::NotConfigured => "not_configured"@,
            VerificationState::Passed => "passed"@,
            VerificationState::Failed => "failed"@,
            VerificationState::Inconclusive => "inconclusive"@,
        }
    }

    /// The word for it, as records and reports write it.
    pub fn word(&self) -> (r: &'static str)
        ensures
            r@ == self.name(),
    {
        match self {
            VerificationState::NotRun => "not_run",
            VerificationState::NotConfigured => "not_configured",
            VerificationState::Passed => "passed",
            VerificationState::Failed => "failed",
            VerificationState::Inconclusive => "inconclusive",
        }
    }
}

#[derive(Debug, Clone, Copy, PartialEq, Eq, Structural)]
pub enum ReviewState {
    NotRequested,
    Pending,
    Accepted,
    Rejected,
    Deferred,
}

#[derive(Debug, Clone, Copy, PartialEq, Eq, Structural)]
pub enum ApplicationState {
    NotApplied,
    Applied,
    BlockedBySourceDrift,
    Failed,
}

#[derive(Debug, Clone, Copy, PartialEq, Eq, Structural)]
pub enum RunPhase {
    Preparing,
    Planning,
    Executing,
    Verifying,
    Integrating,
    Reviewing,
    Applying,
    Finished,
}

#[derive(Debug, Clone, Copy, PartialEq, Eq, Structural)]
pub enum WaitingOn {
    Nothing,
    Human,
    Capacity,
    Admission,
    Authorization,
    Dependency,
    Reconciliation,
}

/// Who put a result into the source.
#[derive(Debug, Clone, Copy, PartialEq, Eq, Structural)]
pub enum AppliedBy {
    Human,
    AutoApply,
}

/// Where a run stands, along every axis at once.
#[derive(Debug, Clone, Copy, PartialEq, Eq, Structural)]
pub struct RunOutcome {
    pub lifecycle: LifecycleState,
    pub work_result: WorkResult,
    pub verification: VerificationState,
    pub review: ReviewState,
    pub application: ApplicationState,
    pub phase: RunPhase,
    pub waiting_on: WaitingOn,
    pub applied_by: Option<AppliedBy>,
}

/// Why a goal or an attempt stopped.
#[derive(Debug, Clone, Copy, PartialEq, Eq, Structural)]
pub enum FailureKind {
    Authorization,
    BaselineInfrastructure,
    Cancelled,
    CapacityAdmission,
    Deadline,
    HarnessProcess,
    InternalState,
    InvocationLimit,
    SourceDrift,
    StaleWork,
    TargetVerification,
    UnsupportedCheckpoint,
    VerificationInfrastructure,
    VerificationUnknown,
}

impl FailureKind {
    /// The name of the variant.
    pub open spec fn variant(self) -> Seq<char> {
        match self {
            FailureKind::Authorization => "Authorization"@,
            FailureKind::BaselineInfrastructure => "BaselineInfrastructure"@,
            FailureKind::Cancelled => "Cancelled"@,
            FailureKind::CapacityAdmission => "CapacityAdmission"@,
            FailureKind::Deadline => "Deadline"@,
            FailureKind::HarnessProcess => "HarnessProcess"@,
            FailureKind::InternalState => "InternalState"@,
            FailureKind::InvocationLimit => "InvocationLimit"@,
            FailureKind::SourceDrift => "SourceDrift"@,
            FailureKind::StaleWork => "StaleWork"@,
            FailureKind::TargetVerification => "TargetVerification"@,
            FailureKind::UnsupportedCheckpoint => "UnsupportedCheckpoint"@,
            FailureKind::VerificationInfrastructure => "VerificationInfrastructure"@,
            FailureKind::VerificationUnknown => "VerificationUnknown"@,
        }
    }

    /// The name of the variant.
    pub fn variant_name(&self) -> (r: &'static str)
        ensures
            r@ == self.variant(),
    {
        match self {
            FailureKind::Authorization => "Authorization",
            FailureKind::BaselineInfrastructure => "BaselineInfrastructure",
            FailureKind::Cancelled => "Cancelled",
            FailureKind::CapacityAdmission => "CapacityAdmission",
            FailureKind::Deadline => "Deadline",
            FailureKind::HarnessProcess => "HarnessProcess",
            FailureKind::InternalState => "InternalState",
            FailureKind::InvocationLimit => "InvocationLimit",
            FailureKind::SourceDrift => "SourceDrift",
            FailureKind::StaleWork => "StaleWork",
            FailureKind::TargetVerification => "TargetVerification",
            FailureKind::UnsupportedCheckpoint => "UnsupportedCheckpoint",
            FailureKind::VerificationInfrastructure => "VerificationInfrastructure",
            FailureKind::VerificationUnknown => "VerificationUnknown",
        }
    }

    /// The word for it.
    pub open spec fn name(self) -> Seq<char> {
        match self {
            FailureKind::Authorization => "authorization"@,
            FailureKind::BaselineInfrastructure => "baseline_infrastructure"@,
            FailureKind::Cancelled => "cancelled"@,
            FailureKind::CapacityAdmission => "capacity_admission"@,
            FailureKind::Deadline => "deadline"@,
            FailureKind::HarnessProcess => "harness_process"@,
            FailureKind::InternalState => "internal_state"@,
            FailureKind::InvocationLimit => "invocation_limit"@,
            FailureKind::SourceDrift => "source_drift"@,
            FailureKind::StaleWork => "stale_work"@,
            FailureKind::TargetVerification => "target_verification"@,
            FailureKind::UnsupportedCheckpoint => "unsupported_checkpoint"@,
            FailureKind::VerificationInfrastructure => "verification_infrastructure"@,
            FailureKind::VerificationUnknown => "verification_unknown"@,
        }
    }

    /// The word for it, as records and reports write it.
    pub fn word(&self) -> (r: &'static str)
        ensures
            r@ == self.name(),
    {
        match self {
            FailureKind::Authorization => "authorization",
            FailureKind::BaselineInfrastructure => "baseline_infrastructure",
            FailureKind::Cancelled => "cancelled",
            FailureKind::CapacityAdmission => "capacity_admission",
            FailureKind::Deadline => "deadline",
            FailureKind::HarnessProcess => "harness_process",
            FailureKind::InternalState => "internal_state",
            FailureKind::InvocationLimit => "invocation_limit",
            FailureKind::SourceDrift => "source_drift",
            FailureKind::StaleWork => "stale_work",
            FailureKind::TargetVerification => "target_verification",
            FailureKind::UnsupportedCheckpoint => "unsupported_checkpoint",
            FailureKind::VerificationInfrastructure => "verification_infrastructure",
            FailureKind::VerificationUnknown => "verification_unknown",
        }
    }
}

#[derive(Debug, Clone, Copy, PartialEq, Eq, Structural)]
pub enum CheckStatus {
    Passed,
    Failed,
    TimedOut,
    Error,
}

/// One run of one configured check.
#[derive(Debug, Clone, PartialEq, Eq)]
pub struct CheckResult {
    pub command: String,
    pub status: CheckStatus,
    pub exit_code: Option<i32>,
    pub stdout_path: String,
    pub stderr_path: String,
}

#[derive(Debug, Clone, Copy, PartialEq, Eq, Structural)]
pub enum CandidateStatus {
    Preparing,
    Running,
    Completed,
    Failed,
    Cancelled,
    TimedOut,
}

#[derive(Debug, Clone, Copy, PartialEq, Eq, Structural)]
pub struct DiffStats {
    pub files_changed: u64,
    pub lines_added: u64,
    pub lines_removed: u64,
}

/// What one agent produced.
#[derive(Debug, Clone, PartialEq, Eq)]
pub struct CandidateRecord {
    pub id: String,
    pub label: String,
    pub harness_id: String,
    pub harness_version: Option<String>,
    pub model: Option<String>,
    pub status: CandidateStatus,
    pub workspace_path: String,
    pub prompt_path: String,
    pub stdout_path: String,
    pub stderr_path: String,
    pub diff_path: String,
    pub duration_ms: u64,
    pub exit_code: Option<i32>,
    pub timed_out: bool,
    pub tokens: Option<u64>,
    pub token_semantics: Option<String>,
    /// Millionths of a US dollar.
    pub cost: Option<u64>,
    pub error: Option<String>,
    pub diff_stats: DiffStats,
    pub checks: Vec<CheckResult>,
}

/// What admission knows of an attempt.
#[derive(Debug, Clone, PartialEq, Eq)]
pub struct AdmissionSummary {
    pub attempt_id: String,
    /// Whether it has to be reconciled by hand.
    pub reconciling: bool,
}

/// What is kept of an attempt beside its identity.
#[derive(Debug, Clone, PartialEq, Eq)]
pub struct AttemptDetail {
    pub parent_attempt_id: Option<String>,
    pub reason: Option<String>,
    pub input_baseline: Option<String>,
    pub capacity: Option<String>,
    pub admission: Option<AdmissionSummary>,
    pub decision: Option<AllocationDecision>,
    pub task_id: Option<String>,
    pub plan_revision: Option<String>,
    pub input_snapshot_id: Option<String>,
    pub consumed_artifacts: Vec<String>,
    pub failure: Option<FailureKind>,
    pub result: Option<CandidateRecord>,
}

/// One launch of one agent.
#[derive(Debug, Clone, PartialEq, Eq)]
pub struct AttemptRecord {
    pub id: String,
    pub run_id: String,
    pub candidate_id: String,
    pub role: String,
    pub ordinal: u32,
    pub generation: u32,
    pub harness_id: String,
    pub harness_version: Option<String>,
    pub requested_model: Option<String>,
    pub resolved_model: Option<String>,
    pub observed_model: Option<String>,
    pub requested_effort: Option<String>,
    pub resolved_effort: Option<String>,
    pub observed_effort: Option<String>,
    pub started_at: i64,
    pub completed_at: Option<i64>,
    pub outcome: String,
    pub raw_telemetry_path: String,
    pub resource: Option<ResourceChoice>,
    pub detail: AttemptDetail,
}

#[derive(Debug, Clone, Copy, PartialEq, Eq, Structural)]
pub enum QuestionState {
    Pending,
    Answered,
    Cancelled,
}

/// What an attempt asked before it could go on.
#[derive(Debug, Clone, PartialEq, Eq)]
pub struct CheckpointReport {
    pub question: String,
    pub choices: Vec<String>,
    pub category: Option<String>,
}

/// A question that an agent stopped on.
#[derive(Debug, Clone, PartialEq, Eq)]
pub struct Clarification {
    pub id: String,
    pub run_id: String,
    pub attempt_id: String,
    pub generation: u32,
    pub revision: u64,
    pub report: CheckpointReport,
    pub state: QuestionState,
    pub answer: Option<String>,
    pub created_at: i64,
    pub resolved_at: Option<i64>,
    pub actor_uid: Option<u32>,
    /// The machine identity that acted for the owner, if one did.
    pub actor: Option<String>,
}

/// The execution policy of a run and what came of it.
#[derive(Debug, Clone, PartialEq, Eq)]
pub struct GoalExecution {
    pub owner_uid: u32,
    pub deadline_at: i64,
    pub max_invocations: u32,
    pub no_retry: bool,
    pub fixed_harness: Option<String>,
    pub fixed_model: Option<String>,
    pub fixed_effort: Option<String>,
    pub failure: Option<FailureKind>,
    pub final_attempt_id: Option<String>,
    pub contributing_attempts: Vec<String>,
    pub provenance: String,
    pub supervisor: Option<ProcessIdentity>,
    pub questions: Vec<Clarification>,
    pub planning: Option<Planning>,
}

/// What to do with work whose source moved.
#[derive(Debug, Clone, Copy, PartialEq, Eq, Structural)]
pub enum Decision {
    Continue,
    Refresh,
    Stop,
}

/// One reason for a decision.
#[derive(Debug, Clone, PartialEq, Eq)]
pub struct Reason {
    pub code: String,
    pub detail: String,
}

/// A decision about work, with the source it was made for.
#[derive(Debug, Clone, PartialEq, Eq)]
pub struct Validity {
    pub decision: Decision,
    pub world_changed: bool,
    pub world_digest: String,
    pub changed_files: u64,
    pub evaluated_at: i64,
    pub reasons: Vec<Reason>,
}

/// The latest decision about a run, and when its work first stopped holding.
#[derive(Debug, Clone, PartialEq, Eq)]
pub struct CoherenceRecord {
    pub version: u32,
    pub refreshed_from: Option<String>,
    pub facts: Vec<String>,
    pub validity: Option<Validity>,
    pub first_invalid_at: Option<i64>,
}

/// One run.
#[derive(Debug, Clone, PartialEq, Eq)]
pub struct RunRecord {
    pub id: String,
    pub task: String,
    pub exact_prompt: String,
    pub source_path: String,
    pub source_fingerprint: String,
    pub baseline_path: String,
    pub baseline_commit: String,
    pub status: RunStatus,
    pub mode: RunMode,
    pub state_revision: u64,
    pub outcome: RunOutcome,
    pub created_at: i64,
    pub completed_at: Option<i64>,
    pub execution_backend: String,
    pub unsafe_local: bool,
    pub baseline_checks: Vec<CheckResult>,
    pub candidates: Vec<CandidateRecord>,
    pub attempts: Vec<AttemptRecord>,
    pub allocation: Option<AllocationDecision>,
    pub coherence: Option<CoherenceRecord>,
    pub applied_candidate: Option<String>,
    pub attachment: Option<AttachmentRecord>,
    /// The latest observation of the pool that the run draws on.
    pub capacity: Option<String>,
    pub admission: Option<AdmissionSummary>,
    pub phase3: Option<GoalExecution>,
}

/// The value behind an optional reference.
pub open spec fn behind<T>(r: Option<&T>) -> Option<T> {
    match r {
        Some(value) => Some(*value),
        None => None,
    }
}

impl CheckResult {
    /// An exact copy.
    pub fn copied(&self) -> (r: Self)
        ensures
            r == *self,
    {
        CheckResult {
            command: self.command.clone(),
            status: self.status,
            exit_code: self.exit_code,
            stdout_path: self.stdout_path.clone(),
            stderr_path: self.stderr_path.clone(),
        }
    }
}

/// Whether two candidates hold the same.
pub open spec fn same_candidate(a: CandidateRecord, b: CandidateRecord) -> bool {
    a.checks@ == b.checks@ && a == (CandidateRecord { checks: a.checks, ..b })
}

impl CandidateRecord {
    /// A copy that holds the same.
    pub fn copied(&self) -> (r: Self)
        ensures
            same_candidate(r, *self),
    {
        let mut checks: Vec<CheckResult> = Vec::new();
        let mut i: usize = 0;
        while i < self.checks.len()
            invariant
                i <= self.checks.len(),
                checks@ == self.checks@.take(i as int),
            decreases self.checks.len() - i,
        {
            checks.push(self.checks[i].copied());
            i += 1;
        }
        assert(self.checks@.take(self.checks@.len() as int) =~= self.checks@);
        CandidateRecord {
            id: self.id.clone(),
            label: self.label.clone(),
            harness_id: self.harness_id.clone(),
            harness_version: copy_optional(&self.harness_version),
            model: copy_optional(&self.model),
            status: self.status,
            workspace_path: self.workspace_path.clone(),
            prompt_path: self.prompt_path.clone(),
            stdout_path: self.stdout_path.clone(),
            stderr_path: self.stderr_path.clone(),
            diff_path: self.diff_path.clone(),
            duration_ms: self.duration_ms,
            exit_code: self.exit_code,
            timed_out: self.timed_out,
            tokens: self.tokens,
            token_semantics: copy_optional(&self.token_semantics),
            cost: self.cost,
            error: copy_optional(&self.error),
            diff_stats: self.diff_stats,
            checks,
        }
    }
}

} // verus!
