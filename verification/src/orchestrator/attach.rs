//! Attached work: agents that were started elsewhere and put under observation.

use vstd::prelude::*;

use crate::orchestrator::apply::ApplyOutcome;

use crate::planning::{components, components_of, file_name, file_name_of};

use crate::text::{
    decimal, decimal_of, lowercase, lowercase_of, optional_view, same, same_optional, texts,
};
use crate::record::{
    ApplicationState, AttemptDetail, AttemptRecord, CandidateRecord, CandidateStatus, CheckResult,
    DiffStats, LifecycleState, ReviewState, RunMode, RunOutcome, RunPhase, RunRecord, RunStatus,
    Validity, VerificationState, WaitingOn, WorkResult, same_candidate,
};
use crate::process::ProcessIdentity;

verus! {

/// Whether the process that owns attached work is still there.
#[derive(Debug, Clone, Copy, PartialEq, Eq, Structural)]
pub enum OwnerState {
    Live,
    Gone,
    Adopted,
    Unknown,
}

/// Where the snapshot that work started from was taken.
#[derive(Debug, Clone, PartialEq, Eq)]
pub enum BaselineProvenance {
    GitMergeBase { commit: String },
    SnapshotAtAttach,
    WorkspaceAtStart { commit: String },
}

/// Whether every edit since the snapshot is visible.
#[derive(Debug, Clone, Copy, PartialEq, Eq, Structural)]
pub enum AttachConfidence {
    Full,
    Partial,
}

/// What may be done with attached work.
#[derive(Debug, Clone, Copy, PartialEq, Eq, Structural)]
pub struct AttachCapabilities {
    pub observe: bool,
    pub signal: bool,
    pub control: bool,
    pub integrate: bool,
}

/// Why attached work ended.
#[derive(Debug, Clone, Copy, PartialEq, Eq, Structural)]
pub enum FinishReason {
    Explicit,
    ProcessExit { code: Option<i32> },
}

/// Who made a workspace.
#[derive(Debug, Clone, Copy, PartialEq, Eq, Structural)]
pub enum WorkspaceOwner {
    Dispatch,
    Runtime,
    User,
}

/// A workspace that was made for the work.
#[derive(Debug, Clone, PartialEq, Eq)]
pub struct ManagedWorkspace {
    pub branch: Option<String>,
    pub removed: bool,
}

/// One session of an agent runtime in a workspace.
#[derive(Debug, Clone, PartialEq, Eq)]
pub struct RuntimeSession {
    pub provider: String,
    pub session_id: String,
    pub source: String,
    pub model: Option<String>,
    pub started_at: i64,
    pub ended_at: Option<i64>,
    pub end_reason: Option<String>,
}

/// The removal of a workspace; `exact` when its final changes were kept.
#[derive(Debug, Clone, Copy, PartialEq, Eq, Structural)]
pub struct WorkspaceRemoval {
    pub at: i64,
    pub exact: bool,
}

/// What a run knows of the work attached to it.
#[derive(Debug, Clone, PartialEq, Eq)]
pub struct AttachmentRecord {
    pub version: u32,
    pub workspace: String,
    pub integration_root: String,
    pub repo_key: Option<String>,
    pub provenance: BaselineProvenance,
    pub confidence: AttachConfidence,
    pub agent: Option<String>,
    pub command: Option<Vec<String>>,
    pub owner: Option<ProcessIdentity>,
    pub agent_process: Option<ProcessIdentity>,
    pub owner_state: OwnerState,
    pub capabilities: AttachCapabilities,
    pub attached_at: i64,
    pub finished_at: Option<i64>,
    pub finish_reason: Option<FinishReason>,
    pub workspace_owner: WorkspaceOwner,
    pub managed: Option<ManagedWorkspace>,
    pub sessions: Vec<RuntimeSession>,
    pub workspace_removed: Option<WorkspaceRemoval>,
}

/// The most runtime sessions that attached work keeps.
pub const MAX_SESSIONS: usize = 100;

/// A request to attach work that an agent does elsewhere.
#[derive(Debug, Clone, PartialEq, Eq)]
pub struct AttachRequest {
    pub workspace: String,
    /// The main worktree of the repository where `workspace` is a linked one; required for a plain
    /// directory.
    pub root: Option<String>,
    pub task: Option<String>,
    pub agent: Option<String>,
    pub pid: Option<u32>,
    /// The command that is wrapped: spawned and owned for the session.
    pub command: Option<Vec<String>>,
    pub allow_unsafe_local: bool,
    pub auto_apply: bool,
    /// The session start of a runtime that registers the work, rather than a person.
    pub runtime: Option<RuntimeStart>,
}

/// Work that the session start of a runtime registers. A resume into a workspace that was not seen
/// before may follow edits made before it.
#[derive(Debug, Clone, PartialEq, Eq)]
pub struct RuntimeStart {
    pub session: RuntimeSession,
    pub resumed: bool,
}

/// What is found of the workspace and the root that a request names.
#[derive(Debug, Clone, PartialEq, Eq)]
pub struct AttachFacts {
    /// The resolved workspace, and the resolved root where the request names one.
    pub workspace: String,
    pub root: Option<String>,
    /// The repository of the workspace, and its main worktree, where it has one.
    pub repo_key: Option<String>,
    pub main_worktree: Option<String>,
    /// The repository of the root.
    pub root_key: Option<String>,
    pub merge_base: Option<String>,
    /// Whether finishing would run checks on the host.
    pub checks_configured: bool,
    /// The work that the workspace is already attached to.
    pub attached_as: Option<String>,
}

/// How the state that attached work starts from is recorded.
#[derive(Debug, Clone, PartialEq, Eq)]
pub enum Start {
    /// In a workspace that is made for it.
    Managed,
    /// As the workspace is when the runtime starts in it.
    Runtime,
    /// At the merge base of the workspace and the root.
    MergeBase(String),
    /// As a snapshot of the workspace.
    Snapshot,
}

/// How the state that attached work starts from is recorded, as a value.
pub ghost enum Starting {
    Managed,
    Runtime,
    MergeBase(Seq<char>),
    Snapshot,
}

/// The root that work is integrated into.
pub open spec fn integration_root(facts: AttachFacts) -> Option<Seq<char>> {
    match facts.root {
        Some(root) => Some(root@),
        None => optional_view(facts.main_worktree),
    }
}

/// Why a request is refused or how its work starts: the reasons in the order in which they are looked
/// at.
pub open spec fn attaching(request: AttachRequest, facts: AttachFacts) -> Result<Starting, Seq<char>> {
    let wrapped = request.command is Some;
    match integration_root(facts) {
        None => Err("--root is required for a plain directory"@),
        Some(root) => {
            let managed = wrapped && facts.workspace@ == root;
            if !managed && facts.workspace@ == root {
                Err(
                    "attach needs a separate worktree; run git worktree add, or wrap the agent (dispatch attach -- <agent>) and Dispatch makes one"@,
                )
            } else {
                let start = if managed {
                    Ok(Starting::Managed)
                } else if request.runtime is Some {
                    Ok(Starting::Runtime)
                } else if facts.repo_key is Some {
                    if optional_view(facts.root_key) != optional_view(facts.repo_key) {
                        Err("workspace belongs to a different repository than the integration root"@)
                    } else if facts.merge_base is None {
                        Err("no common history between the workspace and the integration root"@)
                    } else {
                        Ok(Starting::MergeBase(facts.merge_base->0@))
                    }
                } else if wrapped {
                    Ok(Starting::Snapshot)
                } else {
                    Err("a plain directory can be attached only by wrapping the agent command"@)
                };
                if start is Err {
                    start
                } else if facts.checks_configured && !request.allow_unsafe_local && request.runtime
                    is None {
                    Err("finish runs your checks.verify on the host; pass --allow-unsafe-local"@)
                } else if !managed && facts.attached_as is Some {
                    Err("workspace already attached as "@ + facts.attached_as->0@)
                } else {
                    start
                }
            }
        },
    }
}

/// Decides whether a request is refused or how its work starts, with the root it is integrated into.
pub fn decide_start(request: &AttachRequest, facts: &AttachFacts) -> (r: Result<(String, Start), String>)
    ensures
        match attaching(*request, *facts) {
            Err(reason) => r matches Err(e) && e@ == reason,
            Ok(starting) => r matches Ok((root, start)) && Some(root@) == integration_root(*facts)
                && (match (start, starting) {
                (Start::Managed, Starting::Managed) => true,
                (Start::Runtime, Starting::Runtime) => true,
                (Start::MergeBase(a), Starting::MergeBase(b)) => a@ == b,
                (Start::Snapshot, Starting::Snapshot) => true,
                _ => false,
            }),
        },
{
    let wrapped = request.command.is_some();
    let root = match &facts.root {
        Some(root) => root.clone(),
        None => match &facts.main_worktree {
            Some(root) => root.clone(),
            None => {
                return Err("--root is required for a plain directory".to_owned());
            },
        },
    };
    let in_root = same(facts.workspace.as_str(), root.as_str());
    let managed = wrapped && in_root;
    if in_root && !managed {
        return Err(
            "attach needs a separate worktree; run git worktree add, or wrap the agent (dispatch attach -- <agent>) and Dispatch makes one".to_owned(),
        );
    }
    let start = if managed {
        Start::Managed
    } else if request.runtime.is_some() {
        Start::Runtime
    } else {
        match &facts.repo_key {
            Some(key) => {
                if !same_optional(&facts.root_key, Some(key.as_str())) {
                    return Err(
                        "workspace belongs to a different repository than the integration root".to_owned(),
                    );
                }
                match &facts.merge_base {
                    Some(commit) => Start::MergeBase(commit.clone()),
                    None => {
                        return Err(
                            "no common history between the workspace and the integration root".to_owned(),
                        );
                    },
                }
            },
            None => {
                if !wrapped {
                    return Err(
                        "a plain directory can be attached only by wrapping the agent command".to_owned(),
                    );
                }
                Start::Snapshot
            },
        }
    };
    if facts.checks_configured && !request.allow_unsafe_local && request.runtime.is_none() {
        return Err(
            "finish runs your checks.verify on the host; pass --allow-unsafe-local".to_owned(),
        );
    }
    if !managed {
        if let Some(id) = &facts.attached_as {
            let mut message = "workspace already attached as ".to_owned();
            message.push_str(id.as_str());
            return Err(message);
        }
    }
    Ok((root, start))
}

/// The checkout itself is never the workspace of work that is not given one of its own.
pub proof fn the_checkout_is_never_the_workspace(request: AttachRequest, facts: AttachFacts)
    requires
        attaching(request, facts) is Ok,
        Some(facts.workspace@) == integration_root(facts),
    ensures
        attaching(request, facts) == Ok::<Starting, Seq<char>>(Starting::Managed),
        request.command is Some,
{
}

/// How far the recorded start of attached work is to be trusted.
pub open spec fn confidence_of(starting: Start, resumed: bool) -> AttachConfidence {
    match starting {
        Start::Managed => AttachConfidence::Full,
        Start::Runtime => if resumed {
            AttachConfidence::Partial
        } else {
            AttachConfidence::Full
        },
        Start::MergeBase(_) => AttachConfidence::Full,
        Start::Snapshot => AttachConfidence::Partial,
    }
}

/// Where the work stands that is attached, and what it starts from.
#[derive(Debug, Clone, PartialEq, Eq)]
pub struct Placement {
    pub workspace: String,
    pub root: String,
    pub repo_key: Option<String>,
    pub start: Start,
    /// The commit that stands for the workspace at the start, where the work starts there.
    pub start_commit: String,
    pub managed: Option<ManagedWorkspace>,
    pub baseline_path: String,
    pub baseline_commit: String,
    pub source_fingerprint: String,
}

/// What is new about attached work.
#[derive(Debug, Clone, PartialEq, Eq)]
pub struct AttachIds {
    pub run: String,
    pub candidate: String,
    pub attempt: String,
    /// The process that asks, and the agent where the request names one.
    pub owner: ProcessIdentity,
    pub agent_process: Option<ProcessIdentity>,
    pub task_path: String,
    pub stdout_path: String,
    pub stderr_path: String,
    pub diff_path: String,
    pub telemetry_path: String,
}

/// What attached work is called where nobody says.
pub open spec fn task_name(task: Option<String>, workspace: Seq<char>) -> Seq<char> {
    match task {
        Some(text) => text@,
        None => "attached work in "@ + (match file_name(workspace) {
            Some(name) => name,
            None => workspace,
        }),
    }
}

/// Whether a workspace lies where the hooked agent makes its worktrees: in the hidden directory that is
/// named after the word of its program.
pub open spec fn made_by_runtime(claude: Seq<char>, root: Seq<char>, workspace: Seq<char>) -> bool {
    let home = components(root) + seq!["."@ + claude, "worktrees"@];
    home.len() <= components(workspace).len() && components(workspace).take(home.len() as int) == home
}

/// Who owns a workspace. Whatever runtime a session belongs to, only the hooked agent is known to make
/// worktrees.
pub open spec fn workspace_owner(
    managed: bool,
    runtime: bool,
    claude: Seq<char>,
    root: Seq<char>,
    workspace: Seq<char>,
) -> WorkspaceOwner {
    if managed {
        WorkspaceOwner::Dispatch
    } else if runtime && made_by_runtime(claude, root, workspace) {
        WorkspaceOwner::Runtime
    } else {
        WorkspaceOwner::User
    }
}

/// The provenance of the state that attached work starts from.
pub open spec fn provenance_of(start: Start, commit: String) -> BaselineProvenance {
    match start {
        Start::Managed => BaselineProvenance::WorkspaceAtStart { commit },
        Start::Runtime => BaselineProvenance::WorkspaceAtStart { commit },
        Start::MergeBase(base) => BaselineProvenance::GitMergeBase { commit: base },
        Start::Snapshot => BaselineProvenance::SnapshotAtAttach,
    }
}

/// The attachment of newly attached work.
pub open spec fn fresh_attachment(
    a: AttachmentRecord,
    request: AttachRequest,
    place: Placement,
    ids: AttachIds,
    claude: Seq<char>,
    now: i64,
) -> bool {
    let wrapped = request.command is Some;
    &&& a.version == 1
    &&& a.workspace == place.workspace
    &&& a.integration_root == place.root
    &&& a.repo_key == place.repo_key
    &&& a.provenance == provenance_of(place.start, place.start_commit)
    &&& a.confidence == confidence_of(
        place.start,
        request.runtime matches Some(r) && r.resumed,
    )
    &&& a.agent == request.agent
    &&& a.command == request.command
    &&& a.owner == (if wrapped {
        Some(ids.owner)
    } else {
        None
    })
    &&& a.agent_process == ids.agent_process
    &&& a.owner_state == (if wrapped {
        OwnerState::Live
    } else {
        OwnerState::Unknown
    })
    &&& a.capabilities == (AttachCapabilities {
        observe: true,
        signal: true,
        control: wrapped,
        integrate: request.auto_apply,
    })
    &&& a.attached_at == now
    &&& a.finished_at is None
    &&& a.finish_reason is None
    &&& a.workspace_owner == workspace_owner(
        place.managed is Some,
        request.runtime is Some,
        claude,
        place.root@,
        place.workspace@,
    )
    &&& a.managed == place.managed
    &&& a.sessions@ == (match request.runtime {
        Some(r) => seq![r.session],
        None => Seq::empty(),
    })
    &&& a.workspace_removed is None
}

/// The harness that attached work is put down to.
pub open spec fn attached_harness(agent: Option<String>) -> Seq<char> {
    match agent {
        Some(name) => name@,
        None => "external"@,
    }
}

/// The candidate of newly attached work.
pub open spec fn attached_candidate(
    c: CandidateRecord,
    request: AttachRequest,
    place: Placement,
    ids: AttachIds,
) -> bool {
    &&& c.id == ids.candidate
    &&& c.label@ == "A"@
    &&& c.harness_id@ == attached_harness(request.agent)
    &&& c.harness_version is None
    &&& c.model is None
    &&& c.status == CandidateStatus::Running
    &&& c.workspace_path == place.workspace
    &&& c.prompt_path == ids.task_path
    &&& c.stdout_path == ids.stdout_path
    &&& c.stderr_path == ids.stderr_path
    &&& c.diff_path == ids.diff_path
    &&& c.duration_ms == 0
    &&& c.exit_code is None
    &&& !c.timed_out
    &&& c.tokens is None
    &&& c.token_semantics is None
    &&& c.cost is None
    &&& c.error is None
    &&& c.diff_stats == (DiffStats { files_changed: 0, lines_added: 0, lines_removed: 0 })
    &&& c.checks@.len() == 0
}

/// The attempt of newly attached work.
pub open spec fn attached_attempt(
    a: AttemptRecord,
    request: AttachRequest,
    ids: AttachIds,
    now: i64,
) -> bool {
    &&& a.id == ids.attempt
    &&& a.run_id == ids.run
    &&& a.candidate_id == ids.candidate
    &&& a.role@ == "attached"@
    &&& a.ordinal == 1
    &&& a.generation == 1
    &&& a.harness_id@ == attached_harness(request.agent)
    &&& a.harness_version is None
    &&& a.requested_model is None
    &&& a.resolved_model is None
    &&& a.observed_model is None
    &&& a.requested_effort is None
    &&& a.resolved_effort is None
    &&& a.observed_effort is None
    &&& a.started_at == now
    &&& a.completed_at is None
    &&& a.outcome@ == "running"@
    &&& a.raw_telemetry_path == ids.telemetry_path
    &&& a.resource is None
    &&& a.detail.parent_attempt_id is None
    &&& a.detail.reason is None
    &&& a.detail.input_baseline is None
    &&& a.detail.capacity is None
    &&& a.detail.admission is None
    &&& a.detail.decision is None
    &&& a.detail.task_id is None
    &&& a.detail.plan_revision is None
    &&& a.detail.input_snapshot_id is None
    &&& a.detail.consumed_artifacts@.len() == 0
    &&& a.detail.failure is None
    &&& a.detail.result is None
}

/// The record of newly attached work: it is at work, and nothing is verified, reviewed or applied.
pub open spec fn attached_run(
    run: RunRecord,
    request: AttachRequest,
    place: Placement,
    ids: AttachIds,
    claude: Seq<char>,
    now: i64,
) -> bool {
    &&& run.id == ids.run
    &&& run.task@ == task_name(request.task, place.workspace@)
    &&& run.exact_prompt@ == run.task@
    &&& run.source_path == place.root
    &&& run.source_fingerprint == place.source_fingerprint
    &&& run.baseline_path == place.baseline_path
    &&& run.baseline_commit == place.baseline_commit
    &&& run.status == RunStatus::Running
    &&& run.mode == RunMode::Attached
    &&& run.state_revision == 0
    &&& run.outcome == (RunOutcome {
        lifecycle: LifecycleState::Working,
        work_result: WorkResult::Pending,
        verification: VerificationState::NotRun,
        review: ReviewState::NotRequested,
        application: ApplicationState::NotApplied,
        phase: RunPhase::Executing,
        waiting_on: WaitingOn::Nothing,
        applied_by: None,
    })
    &&& run.created_at == now
    &&& run.completed_at is None
    &&& run.execution_backend@ == "local"@
    &&& run.unsafe_local == request.allow_unsafe_local
    &&& run.baseline_checks@.len() == 0
    &&& run.candidates@.len() == 1 && attached_candidate(run.candidates@[0], request, place, ids)
    &&& run.attempts@.len() == 1 && attached_attempt(run.attempts@[0], request, ids, now)
    &&& run.allocation is None
    &&& run.coherence is None
    &&& run.applied_candidate is None
    &&& run.attachment matches Some(a) && fresh_attachment(a, request, place, ids, claude, now)
    &&& run.capacity is None
    &&& run.admission is None
    &&& run.phase3 is None
}

fn lies_in_worktrees(claude: &str, root: &str, workspace: &str) -> (r: bool)
    ensures
        r == made_by_runtime(claude@, root@, workspace@),
{
    let mut home = components_of(root);
    let mut hidden = ".".to_owned();
    hidden.push_str(claude);
    home.push(hidden);
    home.push("worktrees".to_owned());
    let parts = components_of(workspace);
    let ghost wanted = components(root@) + seq!["."@ + claude@, "worktrees"@];
    assert(texts(home@) =~= wanted);
    if home.len() > parts.len() {
        return false;
    }
    let mut i: usize = 0;
    while i < home.len()
        invariant
            i <= home.len() <= parts.len(),
            texts(home@) == wanted,
            wanted == components(root@) + seq!["."@ + claude@, "worktrees"@],
            texts(parts@) == components(workspace@),
            forall|k: int| 0 <= k < i ==> texts(parts@)[k] == #[trigger] wanted[k],
        decreases home.len() - i,
    {
        assert(texts(home@)[i as int] == home@[i as int]@);
        assert(texts(parts@)[i as int] == parts@[i as int]@);
        if !same(home[i].as_str(), parts[i].as_str()) {
            assert(components(workspace@).take(wanted.len() as int)[i as int] != wanted[i as int]);
            return false;
        }
        i += 1;
    }
    assert(components(workspace@).take(wanted.len() as int) =~= wanted);
    true
}

/// Creates the record of attached work. Nothing is spawned, and the workspace is not touched. The
/// hooked agent is named by the word that its program goes by.
pub fn create(
    request: AttachRequest,
    place: Placement,
    ids: AttachIds,
    claude: &str,
    now: i64,
) -> (r: RunRecord)
    ensures
        attached_run(r, request, place, ids, claude@, now),
{
    let wrapped = request.command.is_some();
    let task = match &request.task {
        Some(text) => text.clone(),
        None => {
            let mut text = "attached work in ".to_owned();
            match file_name_of(place.workspace.as_str()) {
                Some(name) => text.push_str(name.as_str()),
                None => text.push_str(place.workspace.as_str()),
            }
            text
        },
    };
    let harness = match &request.agent {
        Some(name) => name.clone(),
        None => "external".to_owned(),
    };
    let resumed = match &request.runtime {
        Some(runtime) => runtime.resumed,
        None => false,
    };
    let by_runtime = request.runtime.is_some();
    let in_worktrees = by_runtime && lies_in_worktrees(
        claude,
        place.root.as_str(),
        place.workspace.as_str(),
    );
    let owner = if place.managed.is_some() {
        WorkspaceOwner::Dispatch
    } else if in_worktrees {
        WorkspaceOwner::Runtime
    } else {
        WorkspaceOwner::User
    };
    let confidence = match &place.start {
        Start::Managed => AttachConfidence::Full,
        Start::Runtime => if resumed {
            AttachConfidence::Partial
        } else {
            AttachConfidence::Full
        },
        Start::MergeBase(_) => AttachConfidence::Full,
        Start::Snapshot => AttachConfidence::Partial,
    };
    let provenance = match place.start {
        Start::Managed => BaselineProvenance::WorkspaceAtStart { commit: place.start_commit },
        Start::Runtime => BaselineProvenance::WorkspaceAtStart { commit: place.start_commit },
        Start::MergeBase(commit) => BaselineProvenance::GitMergeBase { commit },
        Start::Snapshot => BaselineProvenance::SnapshotAtAttach,
    };
    let mut sessions: Vec<RuntimeSession> = Vec::new();
    if let Some(runtime) = request.runtime {
        sessions.push(runtime.session);
    }
    let candidate = CandidateRecord {
        id: ids.candidate.clone(),
        label: "A".to_owned(),
        harness_id: harness.clone(),
        harness_version: None,
        model: None,
        status: CandidateStatus::Running,
        workspace_path: place.workspace.clone(),
        prompt_path: ids.task_path,
        stdout_path: ids.stdout_path,
        stderr_path: ids.stderr_path,
        diff_path: ids.diff_path,
        duration_ms: 0,
        exit_code: None,
        timed_out: false,
        tokens: None,
        token_semantics: None,
        cost: None,
        error: None,
        diff_stats: DiffStats { files_changed: 0, lines_added: 0, lines_removed: 0 },
        checks: Vec::new(),
    };
    let attempt = AttemptRecord {
        id: ids.attempt,
        run_id: ids.run.clone(),
        candidate_id: ids.candidate,
        role: "attached".to_owned(),
        ordinal: 1,
        generation: 1,
        harness_id: harness,
        harness_version: None,
        requested_model: None,
        resolved_model: None,
        observed_model: None,
        requested_effort: None,
        resolved_effort: None,
        observed_effort: None,
        started_at: now,
        completed_at: None,
        outcome: "running".to_owned(),
        raw_telemetry_path: ids.telemetry_path,
        resource: None,
        detail: AttemptDetail {
            parent_attempt_id: None,
            reason: None,
            input_baseline: None,
            capacity: None,
            admission: None,
            decision: None,
            task_id: None,
            plan_revision: None,
            input_snapshot_id: None,
            consumed_artifacts: Vec::new(),
            failure: None,
            result: None,
        },
    };
    let attachment = AttachmentRecord {
        version: 1,
        workspace: place.workspace,
        integration_root: place.root.clone(),
        repo_key: place.repo_key,
        provenance,
        confidence,
        agent: request.agent,
        command: request.command,
        owner: if wrapped {
            Some(ids.owner)
        } else {
            None
        },
        agent_process: ids.agent_process,
        owner_state: if wrapped {
            OwnerState::Live
        } else {
            OwnerState::Unknown
        },
        capabilities: AttachCapabilities {
            observe: true,
            signal: true,
            control: wrapped,
            integrate: request.auto_apply,
        },
        attached_at: now,
        finished_at: None,
        finish_reason: None,
        workspace_owner: owner,
        managed: place.managed,
        sessions,
        workspace_removed: None,
    };
    let mut candidates: Vec<CandidateRecord> = Vec::new();
    candidates.push(candidate);
    let mut attempts: Vec<AttemptRecord> = Vec::new();
    attempts.push(attempt);
    RunRecord {
        id: ids.run,
        exact_prompt: task.clone(),
        task,
        source_path: place.root,
        source_fingerprint: place.source_fingerprint,
        baseline_path: place.baseline_path,
        baseline_commit: place.baseline_commit,
        status: RunStatus::Running,
        mode: RunMode::Attached,
        state_revision: 0,
        outcome: RunOutcome {
            lifecycle: LifecycleState::Working,
            work_result: WorkResult::Pending,
            verification: VerificationState::NotRun,
            review: ReviewState::NotRequested,
            application: ApplicationState::NotApplied,
            phase: RunPhase::Executing,
            waiting_on: WaitingOn::Nothing,
            applied_by: None,
        },
        created_at: now,
        completed_at: None,
        execution_backend: "local".to_owned(),
        unsafe_local: request.allow_unsafe_local,
        baseline_checks: Vec::new(),
        candidates,
        attempts,
        allocation: None,
        coherence: None,
        applied_candidate: None,
        attachment: Some(attachment),
        capacity: None,
        admission: None,
        phase3: None,
    }
}

/// How the state that attached work starts from is described.
pub open spec fn provenance_text(p: BaselineProvenance) -> Seq<char> {
    match p {
        BaselineProvenance::GitMergeBase { commit } => "commit "@ + commit@ + " (merge base)"@,
        BaselineProvenance::SnapshotAtAttach => "snapshot at attach"@,
        BaselineProvenance::WorkspaceAtStart { commit } => "commit "@ + commit@
            + " (the workspace at start)"@,
    }
}

/// How far the start is to be trusted, in a word.
pub open spec fn confidence_word(c: AttachConfidence) -> Seq<char> {
    match c {
        AttachConfidence::Full => "full"@,
        AttachConfidence::Partial => "partial"@,
    }
}

/// The lines that announce attached work.
pub open spec fn banner_lines(id: Seq<char>, a: AttachmentRecord) -> Seq<Seq<char>> {
    seq![
        "ATTACHED "@ + id,
        "Workspace  "@ + a.workspace@,
        "Root       "@ + a.integration_root@,
        "S0         "@ + provenance_text(a.provenance) + ", "@ + confidence_word(a.confidence)
            + " confidence"@,
        "Next: dispatch finish "@ + id + " when the agent is done"@,
    ]
}

/// Announces attached work that nothing owns: wrapped and registered work say nothing at this point.
pub fn banner(id: &str, a: &AttachmentRecord) -> (r: Vec<String>)
    ensures
        texts(r@) == banner_lines(id@, *a),
{
    let mut out: Vec<String> = Vec::new();
    let mut first = "ATTACHED ".to_owned();
    first.push_str(id);
    out.push(first);
    let mut second = "Workspace  ".to_owned();
    second.push_str(a.workspace.as_str());
    out.push(second);
    let mut third = "Root       ".to_owned();
    third.push_str(a.integration_root.as_str());
    out.push(third);
    let mut fourth = "S0         ".to_owned();
    match &a.provenance {
        BaselineProvenance::GitMergeBase { commit } => {
            fourth.push_str("commit ");
            fourth.push_str(commit.as_str());
            fourth.push_str(" (merge base)");
        },
        BaselineProvenance::SnapshotAtAttach => {
            fourth.push_str("snapshot at attach");
        },
        BaselineProvenance::WorkspaceAtStart { commit } => {
            fourth.push_str("commit ");
            fourth.push_str(commit.as_str());
            fourth.push_str(" (the workspace at start)");
        },
    }
    fourth.push_str(", ");
    match a.confidence {
        AttachConfidence::Full => fourth.push_str("full"),
        AttachConfidence::Partial => fourth.push_str("partial"),
    }
    fourth.push_str(" confidence");
    assert(fourth@ =~= banner_lines(id@, *a)[3]);
    out.push(fourth);
    let mut fifth = "Next: dispatch finish ".to_owned();
    fifth.push_str(id);
    fifth.push_str(" when the agent is done");
    out.push(fifth);
    assert(texts(out@) =~= banner_lines(id@, *a));
    out
}

/// The branch of a workspace that is made for a run.
pub fn workspace_branch(run_id: &str) -> (r: String)
    ensures
        r@ == "dispatch/"@ + lowercase(run_id@),
{
    let mut name = "dispatch/".to_owned();
    let id = lowercase_of(run_id);
    name.push_str(id.as_str());
    name
}

/// What becomes of the workspace of applied work.
#[derive(Debug, Clone, PartialEq, Eq)]
pub enum Release {
    /// There is none to remove.
    Nothing,
    /// It is a linked worktree on this branch.
    Linked(String),
    /// It is a plain directory.
    Directory,
}

/// Whether one path is the directory that another stands in.
pub open spec fn is_parent(parent: Seq<char>, path: Seq<char>) -> bool {
    let parts = components(path);
    parts.len() > 0 && parts.last() != "/"@ && parts.drop_last() == components(parent)
}

/// Decides what becomes of the workspace of applied work. Only a workspace that was made for it, below
/// `parent`, is ever removed.
pub fn release_workspace(run: &RunRecord, parent: &str) -> (r: Result<Release, String>)
    ensures
        match run.attachment {
            None => r == Ok::<Release, String>(Release::Nothing),
            Some(a) => match a.managed {
                None => r == Ok::<Release, String>(Release::Nothing),
                Some(made) => if made.removed {
                    r == Ok::<Release, String>(Release::Nothing)
                } else if !is_parent(parent@, a.workspace@) {
                    r matches Err(e) && e@ == "refusing to remove "@ + a.workspace@
                        + ": not a workspace Dispatch made"@
                } else {
                    match made.branch {
                        Some(branch) => r == Ok::<Release, String>(Release::Linked(branch)),
                        None => r == Ok::<Release, String>(Release::Directory),
                    }
                },
            },
        },
{
    let a = match &run.attachment {
        None => {
            return Ok(Release::Nothing);
        },
        Some(a) => a,
    };
    let made = match &a.managed {
        None => {
            return Ok(Release::Nothing);
        },
        Some(made) => made,
    };
    if made.removed {
        return Ok(Release::Nothing);
    }
    if !stands_in(parent, a.workspace.as_str()) {
        let mut message = "refusing to remove ".to_owned();
        message.push_str(a.workspace.as_str());
        message.push_str(": not a workspace Dispatch made");
        return Err(message);
    }
    match &made.branch {
        Some(branch) => Ok(Release::Linked(branch.clone())),
        None => Ok(Release::Directory),
    }
}

fn stands_in(parent: &str, path: &str) -> (r: bool)
    ensures
        r == is_parent(parent@, path@),
{
    let own = components_of(path);
    let wanted = components_of(parent);
    let n = own.len();
    assert(texts(own@).len() == n);
    if n == 0 {
        return false;
    }
    assert(texts(own@).last() == own@[n - 1]@);
    if same(own[n - 1].as_str(), "/") {
        return false;
    }
    if wanted.len() != n - 1 {
        assert(components(path@).drop_last().len() != components(parent@).len());
        return false;
    }
    let mut i: usize = 0;
    while i < wanted.len()
        invariant
            i <= wanted.len(),
            wanted.len() == n - 1,
            n == own@.len(),
            texts(own@) == components(path@),
            texts(wanted@) == components(parent@),
            forall|k: int| 0 <= k < i ==> (#[trigger] own@[k])@ == wanted@[k]@,
        decreases wanted.len() - i,
    {
        if !same(own[i].as_str(), wanted[i].as_str()) {
            assert(components(path@).drop_last()[i as int] == own@[i as int]@);
            assert(components(parent@)[i as int] == wanted@[i as int]@);
            return false;
        }
        i += 1;
    }
    assert(components(path@).drop_last() =~= components(parent@)) by {
        assert forall|k: int| 0 <= k < wanted@.len() implies components(path@).drop_last()[k]
            == components(parent@)[k] by {
            assert(texts(own@)[k] == own@[k]@);
            assert(texts(wanted@)[k] == wanted@[k]@);
        }
    }
    true
}

/// Records that the workspace of a run was removed after its work was applied.
pub fn mark_released(run: &mut RunRecord)
    ensures
        match old(run).attachment {
            Some(a) => match a.managed {
                Some(made) => *final(run) == (RunRecord {
                    attachment: Some(
                        AttachmentRecord {
                            managed: Some(ManagedWorkspace { removed: true, ..made }),
                            ..a
                        },
                    ),
                    ..*old(run)
                }),
                None => *final(run) == *old(run),
            },
            None => *final(run) == *old(run),
        },
{
    if let Some(a) = &mut run.attachment {
        if let Some(made) = &mut a.managed {
            made.removed = true;
        }
    }
}

/// The command that a wrapped request names.
pub fn wrapped_command(request: &AttachRequest) -> (r: Result<&Vec<String>, String>)
    ensures
        match request.command {
            Some(argv) => if argv@.len() > 0 {
                r matches Ok(found) && *found == argv
            } else {
                r matches Err(e) && e@ == "wrapped attach requires a command after --"@
            },
            None => r matches Err(e) && e@ == "wrapped attach requires a command after --"@,
        },
{
    if let Some(argv) = &request.command {
        if argv.len() > 0 {
            return Ok(argv);
        }
    }
    Err("wrapped attach requires a command after --".to_owned())
}

/// The one line before a wrapped agent starts: where it works, when the place was chosen for it.
pub fn working_line(a: &AttachmentRecord) -> (r: Option<String>)
    ensures
        match a.managed {
            Some(made) => r matches Some(line) && line@ == "Working in "@ + a.workspace@ + (
            match made.branch {
                Some(branch) => " on branch "@ + branch@,
                None => Seq::empty(),
            }) + "; your checkout is not touched."@,
            None => r is None,
        },
{
    match &a.managed {
        Some(made) => {
            let mut line = "Working in ".to_owned();
            line.push_str(a.workspace.as_str());
            if let Some(branch) = &made.branch {
                line.push_str(" on branch ");
                line.push_str(branch.as_str());
            }
            line.push_str("; your checkout is not touched.");
            assert(line@ =~= "Working in "@ + a.workspace@ + (match made.branch {
                Some(branch) => " on branch "@ + branch@,
                None => Seq::empty(),
            }) + "; your checkout is not touched."@);
            Some(line)
        },
        None => None,
    }
}

/// The exit code of a wrapper: that of the agent, or one where it was killed.
pub fn wrapped_exit(code: Option<i32>) -> (r: i32)
    ensures
        r == (match code {
            Some(code) => code,
            None => 1,
        }),
{
    match code {
        Some(code) => code,
        None => 1,
    }
}

/// What a policy application is reported as.
pub open spec fn outcome_text(run: RunRecord, outcome: ApplyOutcome) -> Seq<char> {
    match outcome {
        ApplyOutcome::Applied { report, validity } => "Auto-applied Candidate "@
            + report.candidate_label@ + " to "@ + run.source_path@ + " ("@ + decimal(
            report.files_changed as nat,
        ) + " file(s) changed). Review not performed."@,
        ApplyOutcome::Blocked { reason, validity } => not_applied_text(run, reason@),
        ApplyOutcome::Skipped { reason } => not_applied_text(run, reason@),
        ApplyOutcome::Failed { error } => not_applied_text(run, error@),
    }
}

/// What is said when a policy application did not go through.
pub open spec fn not_applied_text(run: RunRecord, reason: Seq<char>) -> Seq<char> {
    "Not applied automatically: "@ + reason + ". Review with dispatch check "@ + run.id@
        + " or dispatch accept "@ + run.id@ + "."@
}

fn put_not_applied(run: &RunRecord, reason: &str) -> (r: String)
    ensures
        r@ == not_applied_text(*run, reason@),
{
    let mut text = "Not applied automatically: ".to_owned();
    text.push_str(reason);
    text.push_str(". Review with dispatch check ");
    text.push_str(run.id.as_str());
    text.push_str(" or dispatch accept ");
    text.push_str(run.id.as_str());
    text.push_str(".");
    text
}

/// Reports a policy application, in the same words whichever owner made it.
pub fn auto_apply_outcome(run: &RunRecord, outcome: &ApplyOutcome) -> (r: String)
    ensures
        r@ == outcome_text(*run, *outcome),
{
    match outcome {
        ApplyOutcome::Applied { report, validity } => {
            let mut text = "Auto-applied Candidate ".to_owned();
            text.push_str(report.candidate_label.as_str());
            text.push_str(" to ");
            text.push_str(run.source_path.as_str());
            text.push_str(" (");
            text.push_str(decimal_of(report.files_changed).as_str());
            text.push_str(" file(s) changed). Review not performed.");
            text
        },
        ApplyOutcome::Blocked { reason, validity } => put_not_applied(run, reason.as_str()),
        ApplyOutcome::Skipped { reason } => put_not_applied(run, reason.as_str()),
        ApplyOutcome::Failed { error } => put_not_applied(run, error.as_str()),
    }
}

/// Whether a session is the open one of a provider.
pub open spec fn is_open_session(s: RuntimeSession, provider: Seq<char>, id: Seq<char>) -> bool {
    s.provider@ == provider && s.session_id@ == id && s.ended_at is None
}

/// Whether an open session of a provider is recorded.
pub open spec fn has_open_session(
    sessions: Seq<RuntimeSession>,
    provider: Seq<char>,
    id: Seq<char>,
) -> bool {
    exists|i: int| 0 <= i < sessions.len() && is_open_session(#[trigger] sessions[i], provider, id)
}

/// The latest of some sessions, as many as are kept.
pub open spec fn latest_sessions(sessions: Seq<RuntimeSession>) -> Seq<RuntimeSession> {
    if sessions.len() > MAX_SESSIONS {
        sessions.skip(sessions.len() - MAX_SESSIONS)
    } else {
        sessions
    }
}

fn open_session(s: &RuntimeSession, provider: &str, id: &str) -> (r: bool)
    ensures
        r == is_open_session(*s, provider@, id@),
{
    same(s.provider.as_str(), provider) && same(s.session_id.as_str(), id) && s.ended_at.is_none()
}

fn drop_oldest(sessions: &mut Vec<RuntimeSession>)
    ensures
        final(sessions)@ == latest_sessions(old(sessions)@),
{
    let ghost all = sessions@;
    assert(all.skip(0) =~= all);
    while sessions.len() > MAX_SESSIONS
        invariant
            sessions@.len() <= all.len(),
            sessions@ == all.skip(all.len() - sessions@.len()),
            sessions@.len() == all.len() || sessions@.len() >= MAX_SESSIONS,
        decreases sessions@.len(),
    {
        sessions.remove(0);
        assert(sessions@ =~= all.skip(all.len() - sessions@.len()));
    }
}

/// Records another runtime session on attached work, and says whether it did: the same open session is
/// recorded once, and the latest sessions are kept.
pub fn record_session_start(run: &mut RunRecord, session: RuntimeSession) -> (r: bool)
    ensures
        match old(run).attachment {
            None => !r && *final(run) == *old(run),
            Some(a) => if has_open_session(a.sessions@, session.provider@, session.session_id@) {
                !r && *final(run) == *old(run)
            } else {
                let new = final(run).attachment->0;
                &&& r
                &&& *final(run) == (RunRecord { attachment: Some(new), ..*old(run) })
                &&& new == (AttachmentRecord { sessions: new.sessions, ..a })
                &&& new.sessions@ == latest_sessions(a.sessions@.push(session))
            },
        },
{
    let known = match &run.attachment {
        None => {
            return false;
        },
        Some(a) => knows_session(a, session.provider.as_str(), session.session_id.as_str()),
    };
    if known {
        return false;
    }
    if let Some(a) = &mut run.attachment {
        a.sessions.push(session);
        drop_oldest(&mut a.sessions);
    }
    true
}

fn knows_session(a: &AttachmentRecord, provider: &str, id: &str) -> (r: bool)
    ensures
        r == has_open_session(a.sessions@, provider@, id@),
{
    let mut i: usize = 0;
    while i < a.sessions.len()
        invariant
            i <= a.sessions.len(),
            forall|k: int|
                0 <= k < i ==> !is_open_session(#[trigger] a.sessions@[k], provider@, id@),
        decreases a.sessions.len() - i,
    {
        if open_session(&a.sessions[i], provider, id) {
            assert(is_open_session(a.sessions@[i as int], provider@, id@));
            return true;
        }
        i += 1;
    }
    false
}

/// The last open session of a provider below `n`.
pub open spec fn last_open(
    sessions: Seq<RuntimeSession>,
    provider: Seq<char>,
    id: Seq<char>,
    n: int,
) -> Option<int>
    decreases n,
{
    if n <= 0 || n > sessions.len() {
        None
    } else if is_open_session(sessions[n - 1], provider, id) {
        Some(n - 1)
    } else {
        last_open(sessions, provider, id, n - 1)
    }
}

/// Records that a runtime session ended, and says whether it did. An ended session does not end the
/// work.
pub fn record_session_end(
    run: &mut RunRecord,
    provider: &str,
    session_id: &str,
    reason: &str,
    now: i64,
) -> (r: bool)
    ensures
        match old(run).attachment {
            None => !r && *final(run) == *old(run),
            Some(a) => match last_open(
                a.sessions@,
                provider@,
                session_id@,
                a.sessions@.len() as int,
            ) {
                None => !r && *final(run) == *old(run),
                Some(i) => {
                    let new = final(run).attachment->0;
                    let ended = new.sessions@[i];
                    &&& r
                    &&& *final(run) == (RunRecord { attachment: Some(new), ..*old(run) })
                    &&& new == (AttachmentRecord { sessions: new.sessions, ..a })
                    &&& new.sessions@ == a.sessions@.update(i, ended)
                    &&& ended == (RuntimeSession {
                        ended_at: Some(now),
                        end_reason: ended.end_reason,
                        ..a.sessions@[i]
                    })
                    &&& optional_view(ended.end_reason) == Some(reason@)
                },
            },
        },
{
    if let Some(a) = &mut run.attachment {
        let mut n: usize = a.sessions.len();
        while n > 0
            invariant
                n <= a.sessions@.len(),
                *a == old(run).attachment->0,
                old(run).attachment is Some,
                last_open(a.sessions@, provider@, session_id@, a.sessions@.len() as int) == last_open(
                    a.sessions@,
                    provider@,
                    session_id@,
                    n as int,
                ),
                after_borrow(run.attachment) == Some(*final(a)),
                after_borrow(*run) == (RunRecord { attachment: Some(*final(a)), ..*old(run) }),
            decreases n,
        {
            if open_session(&a.sessions[n - 1], provider, session_id) {
                let ghost was = a.sessions@;
                let session = &mut a.sessions[n - 1];
                session.ended_at = Some(now);
                session.end_reason = Some(reason.to_owned());
                assert(a.sessions@ =~= was.update(n - 1, a.sessions@[n - 1]));
                return true;
            }
            n -= 1;
        }
    }
    false
}

/// An ended session leaves the work as it was, but for the session.
pub proof fn ended_sessions_end_no_work(new: RunRecord, run: RunRecord, a: AttachmentRecord)
    requires
        run.attachment is Some,
        new == (RunRecord { attachment: Some(a), ..run }),
    ensures
        new.outcome == run.outcome,
        new.status == run.status,
        new.completed_at == run.completed_at,
{
}

/// Attached work never keeps more than the most sessions.
pub proof fn sessions_are_bounded(sessions: Seq<RuntimeSession>)
    ensures
        latest_sessions(sessions).len() <= MAX_SESSIONS,
        sessions.len() > 0 ==> latest_sessions(sessions).last() == sessions.last(),
{
}

/// Whether a run is attached work that is still at work.
pub open spec fn is_active(run: RunRecord) -> bool {
    run.mode == RunMode::Attached && run.outcome.lifecycle == LifecycleState::Working
}

/// Whether a run is active work in a workspace.
pub open spec fn is_active_in(run: RunRecord, workspace: Seq<char>) -> bool {
    is_active(run) && (run.attachment matches Some(a) && a.workspace@ == workspace)
}

/// The first run that is active work in a workspace.
pub fn find_active_attachment(runs: &Vec<RunRecord>, workspace: &str) -> (r: Option<usize>)
    ensures
        match r {
            Some(i) => i < runs@.len() && is_active_in(runs@[i as int], workspace@) && forall|k: int|
                0 <= k < i ==> !is_active_in(#[trigger] runs@[k], workspace@),
            None => forall|k: int|
                0 <= k < runs@.len() ==> !is_active_in(#[trigger] runs@[k], workspace@),
        },
{
    let mut i: usize = 0;
    while i < runs.len()
        invariant
            i <= runs.len(),
            forall|k: int| 0 <= k < i ==> !is_active_in(#[trigger] runs@[k], workspace@),
        decreases runs.len() - i,
    {
        let run = &runs[i];
        if run.mode == RunMode::Attached && run.outcome.lifecycle == LifecycleState::Working {
            if let Some(a) = &run.attachment {
                if same(a.workspace.as_str(), workspace) {
                    return Some(i);
                }
            }
        }
        i += 1;
    }
    None
}

/// Why attached work cannot be finished, if it cannot. `kept` is where the changes that were last seen
/// are kept.
pub open spec fn finish_refusal(run: RunRecord, kept: Seq<char>) -> Option<Seq<char>> {
    if !is_active(run) {
        Some("attached work "@ + run.id@ + " is not active"@)
    } else if run.candidates@.len() != 1 {
        Some("attached work "@ + run.id@ + " does not have exactly one candidate"@)
    } else {
        removal_refusal(run, kept)
    }
}

/// Why work whose workspace was removed cannot be finished, if it cannot: its final changes were lost.
pub open spec fn removal_refusal(run: RunRecord, kept: Seq<char>) -> Option<Seq<char>> {
    match run.attachment {
        Some(a) => match a.workspace_removed {
            Some(removal) => if removal.exact {
                None
            } else {
                Some(
                    "the workspace of "@ + run.id@
                        + " was removed before Dispatch could keep its final changes; only the changes last seen are kept, at "@
                        + kept + ", and they cannot be finished. Reject this work: dispatch reject "@
                        + run.id@,
                )
            },
            None => None,
        },
        None => None,
    }
}

fn refuse_removed(run: &RunRecord, kept: &str) -> (r: Result<(), String>)
    ensures
        match removal_refusal(*run, kept@) {
            Some(reason) => r matches Err(e) && e@ == reason,
            None => r is Ok,
        },
{
    if let Some(a) = &run.attachment {
        if let Some(removal) = &a.workspace_removed {
            if !removal.exact {
                let mut text = "the workspace of ".to_owned();
                text.push_str(run.id.as_str());
                text.push_str(
                    " was removed before Dispatch could keep its final changes; only the changes last seen are kept, at ",
                );
                text.push_str(kept);
                text.push_str(", and they cannot be finished. Reject this work: dispatch reject ");
                text.push_str(run.id.as_str());
                return Err(text);
            }
        }
    }
    Ok(())
}

/// Refuses to finish attached work that is not active, or whose final changes were lost.
pub fn finish(run: &RunRecord, kept: &str) -> (r: Result<(), String>)
    ensures
        match finish_refusal(*run, kept@) {
            Some(reason) => r matches Err(e) && e@ == reason,
            None => r is Ok,
        },
{
    if run.mode != RunMode::Attached || run.outcome.lifecycle != LifecycleState::Working {
        let mut text = "attached work ".to_owned();
        text.push_str(run.id.as_str());
        text.push_str(" is not active");
        return Err(text);
    }
    if run.candidates.len() != 1 {
        let mut text = "attached work ".to_owned();
        text.push_str(run.id.as_str());
        text.push_str(" does not have exactly one candidate");
        return Err(text);
    }
    refuse_removed(run, kept)
}

/// Refuses to run checks on the host that nobody allowed.
pub fn allow_checks(run: &RunRecord, configured: bool, allow_unsafe_local: bool) -> (r: Result<
    (),
    String,
>)
    ensures
        if configured && !run.unsafe_local && !allow_unsafe_local {
            r matches Err(e) && e@
                == "finish runs your checks.verify on the host; pass --allow-unsafe-local"@
        } else {
            r is Ok
        },
{
    if configured && !run.unsafe_local && !allow_unsafe_local {
        Err("finish runs your checks.verify on the host; pass --allow-unsafe-local".to_owned())
    } else {
        Ok(())
    }
}

/// An attachment after its work was finished.
pub open spec fn finished_attachment(
    a: Option<AttachmentRecord>,
    reason: FinishReason,
    now: i64,
) -> Option<AttachmentRecord> {
    match a {
        Some(a) => Some(
            AttachmentRecord { finished_at: Some(now), finish_reason: Some(reason), ..a },
        ),
        None => None,
    }
}

fn finish_attachment(run: &mut RunRecord, reason: FinishReason, now: i64)
    ensures
        *final(run) == (RunRecord {
            attachment: finished_attachment(old(run).attachment, reason, now),
            ..*old(run)
        }),
{
    if let Some(a) = &mut run.attachment {
        a.finished_at = Some(now);
        a.finish_reason = Some(reason);
    }
}

/// Records that the changes of attached work could not be collected. `refreshed` is what the failed
/// candidate makes of the outcome.
pub fn fail_finish(
    run: &mut RunRecord,
    error: &str,
    reason: FinishReason,
    refreshed: RunOutcome,
    now: i64,
)
    requires
        old(run).candidates@.len() == 1,
    ensures
        *final(run) == (RunRecord {
            status: RunStatus::Failed,
            completed_at: Some(now),
            outcome: refreshed,
            candidates: final(run).candidates,
            attachment: finished_attachment(old(run).attachment, reason, now),
            ..*old(run)
        }),
        final(run).candidates@.len() == 1,
        ({
            let c = final(run).candidates@[0];
            &&& c == (CandidateRecord {
                status: CandidateStatus::Failed,
                error: c.error,
                ..old(run).candidates@[0]
            })
            &&& optional_view(c.error) == Some(error@)
        }),
{
    let c = &mut run.candidates[0];
    c.status = CandidateStatus::Failed;
    c.error = Some(error.to_owned());
    run.outcome = refreshed;
    run.status = RunStatus::Failed;
    run.completed_at = Some(now);
    finish_attachment(run, reason, now);
}

/// How many milliseconds lie between two times; none where the second is the earlier.
pub open spec fn elapsed_ms(from: i64, to: i64) -> int {
    if to < from {
        0
    } else {
        (to - from) / 1000
    }
}

fn milliseconds(from: i64, to: i64) -> (r: u64)
    ensures
        r == elapsed_ms(from, to),
{
    if to < from {
        0
    } else {
        ((to as i128 - from as i128) / 1000) as u64
    }
}

/// The candidate of finished attached work.
pub open spec fn finished_candidate(
    c: CandidateRecord,
    was: CandidateRecord,
    stats: DiffStats,
    checks: Option<Vec<CheckResult>>,
    reason: FinishReason,
    ms: int,
) -> bool {
    c == (CandidateRecord {
        status: CandidateStatus::Completed,
        diff_stats: stats,
        checks: match checks {
            Some(checks) => checks,
            None => was.checks,
        },
        duration_ms: ms as u64,
        exit_code: match reason {
            FinishReason::ProcessExit { code } => code,
            FinishReason::Explicit => None,
        },
        ..was
    })
}

/// The first attempt of finished attached work, with a copy of its candidate.
pub open spec fn finished_attempt(
    a: AttemptRecord,
    was: AttemptRecord,
    candidate: CandidateRecord,
    now: i64,
) -> bool {
    &&& a == (AttemptRecord {
        completed_at: Some(now),
        outcome: a.outcome,
        detail: AttemptDetail { result: a.detail.result, ..was.detail },
        ..was
    })
    &&& a.outcome@ == "completed"@
    &&& a.detail.result matches Some(c) && same_candidate(c, candidate)
}

/// Records that attached work is finished: its changes and its checks, and why. It becomes an ordinary
/// result. `refreshed` is what the candidate makes of the outcome.
pub fn finish_locked(
    run: &mut RunRecord,
    stats: DiffStats,
    checks: Option<Vec<CheckResult>>,
    reason: FinishReason,
    refreshed: RunOutcome,
    now: i64,
)
    requires
        old(run).candidates@.len() == 1,
        old(run).attachment is Some,
    ensures
        *final(run) == (RunRecord {
            status: (if refreshed.work_result == WorkResult::Ready {
                RunStatus::ReadyForEvaluation
            } else {
                RunStatus::Failed
            }),
            completed_at: Some(now),
            outcome: refreshed,
            candidates: final(run).candidates,
            attempts: final(run).attempts,
            attachment: finished_attachment(old(run).attachment, reason, now),
            ..*old(run)
        }),
        final(run).candidates@.len() == 1,
        finished_candidate(
            final(run).candidates@[0],
            old(run).candidates@[0],
            stats,
            checks,
            reason,
            elapsed_ms(old(run).attachment->0.attached_at, now),
        ),
        final(run).attempts@.len() == old(run).attempts@.len(),
        final(run).attempts@.len() > 0 ==> finished_attempt(
            final(run).attempts@[0],
            old(run).attempts@[0],
            final(run).candidates@[0],
            now,
        ) && final(run).attempts@.drop_first() == old(run).attempts@.drop_first(),
{
    let attached_at: i64 = match &run.attachment {
        Some(a) => a.attached_at,
        None => now,
    };
    let c = &mut run.candidates[0];
    c.diff_stats = stats;
    if let Some(checks) = checks {
        c.checks = checks;
    }
    c.status = CandidateStatus::Completed;
    c.duration_ms = milliseconds(attached_at, now);
    c.exit_code = match reason {
        FinishReason::ProcessExit { code } => code,
        FinishReason::Explicit => None,
    };
    run.outcome = refreshed;
    run.status = if refreshed.work_result == WorkResult::Ready {
        RunStatus::ReadyForEvaluation
    } else {
        RunStatus::Failed
    };
    run.completed_at = Some(now);
    let kept = run.candidates[0].copied();
    if run.attempts.len() > 0 {
        let attempt = &mut run.attempts[0];
        attempt.completed_at = Some(now);
        attempt.outcome = "completed".to_owned();
        attempt.detail.result = Some(kept);
    }
    finish_attachment(run, reason, now);
    assert(run.attempts@.drop_first() =~= old(run).attempts@.drop_first());
}

/// Whether the exact final changes of removed work are kept.
pub open spec fn is_kept(run: RunRecord) -> bool {
    run.attachment matches Some(a) && (a.workspace_removed matches Some(removal) && removal.exact)
}

/// Whether the changes of work whose workspace is about to be removed have to be kept, or how many files
/// they change where they already are. An event can be replayed.
pub fn before_removal(run: &RunRecord) -> (r: Result<Option<u64>, String>)
    ensures
        if !is_active(*run) || run.candidates@.len() != 1 {
            r matches Err(e) && e@ == "work "@ + run.id@ + " is not active attached work"@
        } else if is_kept(*run) {
            r == Ok::<Option<u64>, String>(Some(run.candidates@[0].diff_stats.files_changed))
        } else {
            r == Ok::<Option<u64>, String>(None)
        },
{
    if run.mode != RunMode::Attached || run.outcome.lifecycle != LifecycleState::Working
        || run.candidates.len() != 1 {
        let mut text = "work ".to_owned();
        text.push_str(run.id.as_str());
        text.push_str(" is not active attached work");
        return Err(text);
    }
    if let Some(a) = &run.attachment {
        if let Some(removal) = &a.workspace_removed {
            if removal.exact {
                return Ok(Some(run.candidates[0].diff_stats.files_changed));
            }
        }
    }
    Ok(None)
}

/// An attachment whose workspace was removed.
pub open spec fn removed_attachment(
    a: Option<AttachmentRecord>,
    exact: bool,
    now: i64,
) -> Option<AttachmentRecord> {
    match a {
        Some(a) => Some(
            AttachmentRecord {
                workspace_removed: Some(WorkspaceRemoval { at: now, exact }),
                ..a
            },
        ),
        None => None,
    }
}

/// Records the exact final changes of work whose workspace is about to be removed. The work does not end
/// by that: only where nothing was changed is there nothing to review, and it is closed.
pub fn freeze_removed_workspace(run: &mut RunRecord, stats: DiffStats, now: i64) -> (r: u64)
    requires
        old(run).candidates@.len() == 1,
    ensures
        r == stats.files_changed,
        final(run).candidates@.len() == 1,
        final(run).attempts@.len() == old(run).attempts@.len(),
        if stats.files_changed == 0 {
            &&& *final(run) == (RunRecord {
                status: RunStatus::Interrupted,
                completed_at: Some(now),
                outcome: RunOutcome {
                    lifecycle: LifecycleState::Finished,
                    work_result: WorkResult::Cancelled,
                    phase: RunPhase::Finished,
                    review: ReviewState::NotRequested,
                    ..old(run).outcome
                },
                candidates: final(run).candidates,
                attempts: final(run).attempts,
                attachment: removed_attachment(old(run).attachment, true, now),
                ..*old(run)
            })
            &&& final(run).candidates@[0] == (CandidateRecord {
                diff_stats: stats,
                status: CandidateStatus::Cancelled,
                ..old(run).candidates@[0]
            })
            &&& final(run).attempts@.len() > 0 ==> {
                let a = final(run).attempts@[0];
                &&& a == (AttemptRecord {
                    completed_at: Some(now),
                    outcome: a.outcome,
                    ..old(run).attempts@[0]
                })
                &&& a.outcome@ == "no_changes"@
                &&& final(run).attempts@.drop_first() == old(run).attempts@.drop_first()
            }
        } else {
            &&& *final(run) == (RunRecord {
                candidates: final(run).candidates,
                attachment: removed_attachment(old(run).attachment, true, now),
                ..*old(run)
            })
            &&& final(run).candidates@[0] == (CandidateRecord {
                diff_stats: stats,
                ..old(run).candidates@[0]
            })
        },
{
    let files_changed = stats.files_changed;
    run.candidates[0].diff_stats = stats;
    if let Some(a) = &mut run.attachment {
        a.workspace_removed = Some(WorkspaceRemoval { at: now, exact: true });
    }
    if files_changed == 0 {
        run.candidates[0].status = CandidateStatus::Cancelled;
        run.status = RunStatus::Interrupted;
        run.completed_at = Some(now);
        run.outcome.lifecycle = LifecycleState::Finished;
        run.outcome.work_result = WorkResult::Cancelled;
        run.outcome.phase = RunPhase::Finished;
        run.outcome.review = ReviewState::NotRequested;
        if run.attempts.len() > 0 {
            let attempt = &mut run.attempts[0];
            attempt.completed_at = Some(now);
            attempt.outcome = "no_changes".to_owned();
        }
        assert(run.attempts@.drop_first() =~= old(run).attempts@.drop_first());
    }
    files_changed
}

/// Whether work was found without its workspace and without having been told first.
pub open spec fn lost(run: RunRecord, present: bool) -> bool {
    &&& run.attachment matches Some(a) && a.workspace_removed is None
    &&& !present
    &&& run.outcome.lifecycle == LifecycleState::Working
}

/// Records that the workspace of active work is gone: only the changes that were last seen survive. They
/// can be read, never finished.
pub fn note_workspace_gone(run: &mut RunRecord, present: bool, now: i64) -> (r: bool)
    ensures
        r == lost(*old(run), present),
        *final(run) == (if r {
            RunRecord {
                attachment: removed_attachment(old(run).attachment, false, now),
                ..*old(run)
            }
        } else {
            *old(run)
        }),
{
    if present || run.outcome.lifecycle != LifecycleState::Working {
        return false;
    }
    if let Some(a) = &mut run.attachment {
        if a.workspace_removed.is_none() {
            a.workspace_removed = Some(WorkspaceRemoval { at: now, exact: false });
            return true;
        }
    }
    false
}

/// Work whose workspace was lost can never be finished.
pub proof fn lost_work_is_never_finished(run: RunRecord, now: i64, kept: Seq<char>)
    requires
        lost(run, false),
    ensures
        ({
            let after = RunRecord {
                attachment: removed_attachment(run.attachment, false, now),
                ..run
            };
            finish_refusal(after, kept) is Some
        }),
{
}

/// A removal that was told first keeps the work finishable, unless nothing was changed.
pub proof fn kept_work_stays_finishable(run: RunRecord, after: RunRecord, now: i64, kept: Seq<char>)
    requires
        finish_refusal(run, kept) is None,
        run.attachment is Some,
        after == (RunRecord {
            candidates: after.candidates,
            attachment: removed_attachment(run.attachment, true, now),
            ..run
        }),
        after.candidates@.len() == 1,
    ensures
        finish_refusal(after, kept) is None,
        is_kept(after),
{
}

/// The lines that follow the finish of attached work. `verification` says what the checks of its
/// candidate gave.
pub fn finish_summary(run: &RunRecord, verification: &str) -> (r: Vec<String>)
    requires
        run.candidates@.len() > 0,
    ensures
        texts(r@) == seq![
            "\n"@ + (if run.outcome.verification == VerificationState::Failed {
                "Verification failed"@
            } else {
                "Ready for review"@
            }) + "\n"@,
            "Task\n  "@ + run.task@ + "\n"@,
            "Agent\n  "@ + run.candidates@[0].harness_id@ + "\n"@,
            "Verification\n  "@ + verification@ + "\n"@,
            "Review\n  dispatch diff\n"@,
            "Then\n  dispatch accept\n  dispatch reject"@,
        ],
{
    let mut heading = "\n".to_owned();
    if run.outcome.verification == VerificationState::Failed {
        heading.push_str("Verification failed");
    } else {
        heading.push_str("Ready for review");
    }
    heading.push_str("\n");
    let mut task = "Task\n  ".to_owned();
    task.push_str(run.task.as_str());
    task.push_str("\n");
    let mut agent = "Agent\n  ".to_owned();
    agent.push_str(run.candidates[0].harness_id.as_str());
    agent.push_str("\n");
    let mut checked = "Verification\n  ".to_owned();
    checked.push_str(verification);
    checked.push_str("\n");
    let mut out: Vec<String> = Vec::new();
    out.push(heading);
    out.push(task);
    out.push(agent);
    out.push(checked);
    out.push("Review\n  dispatch diff\n".to_owned());
    out.push("Then\n  dispatch accept\n  dispatch reject".to_owned());
    assert(texts(out@) =~= seq![
        "\n"@ + (if run.outcome.verification == VerificationState::Failed {
            "Verification failed"@
        } else {
            "Ready for review"@
        }) + "\n"@,
        "Task\n  "@ + run.task@ + "\n"@,
        "Agent\n  "@ + run.candidates@[0].harness_id@ + "\n"@,
        "Verification\n  "@ + verification@ + "\n"@,
        "Review\n  dispatch diff\n"@,
        "Then\n  dispatch accept\n  dispatch reject"@,
    ]);
    out
}

/// How often, in seconds, work is compared with its source where nothing else is configured.
pub const POLL_SECONDS: u64 = 10;

/// How often, in seconds, wrapped work is compared with its source.
pub fn poll_interval(configured: Option<u64>) -> (r: u64)
    ensures
        r == (match configured {
            Some(n) => if n < 1 {
                1
            } else {
                n
            },
            None => POLL_SECONDS,
        }),
{
    match configured {
        Some(n) => if n < 1 {
            1
        } else {
            n
        },
        None => POLL_SECONDS,
    }
}

/// Records the process of a wrapped agent that was started.
pub fn record_agent(run: &mut RunRecord, process: ProcessIdentity)
    ensures
        *final(run) == (match old(run).attachment {
            Some(a) => RunRecord {
                attachment: Some(AttachmentRecord { agent_process: Some(process), ..a }),
                ..*old(run)
            },
            None => *old(run),
        }),
{
    if let Some(a) = &mut run.attachment {
        a.agent_process = Some(process);
    }
}

/// What happens while a wrapped agent runs.
#[derive(Debug, Clone, PartialEq, Eq)]
pub enum WrappedEvent {
    /// The agent exited with this code, or without one.
    Exited(Option<i32>),
    /// The wrapper is asked to end.
    Terminated,
    /// The terminal of the wrapper went away.
    HungUp,
    /// The work was compared with its source.
    Verdict(Validity),
}

/// What a wrapper does about it.
#[derive(Debug, Clone, PartialEq, Eq)]
pub enum WrappedAction {
    /// The work is finished for this reason.
    Finish(FinishReason),
    /// The agent gets the same request to end.
    Terminate,
    /// The agent is told that the terminal went away.
    HangUp,
    /// The verdict is stored with the work.
    Store(Validity),
}

/// What a wrapper does about an event. What it is asked is passed on to the agent, and a verdict is only
/// stored.
pub fn wrapped_step(event: WrappedEvent) -> (r: WrappedAction)
    ensures
        r == (match event {
            WrappedEvent::Exited(code) => WrappedAction::Finish(FinishReason::ProcessExit { code }),
            WrappedEvent::Terminated => WrappedAction::Terminate,
            WrappedEvent::HungUp => WrappedAction::HangUp,
            WrappedEvent::Verdict(v) => WrappedAction::Store(v),
        }),
{
    match event {
        WrappedEvent::Exited(code) => WrappedAction::Finish(FinishReason::ProcessExit { code }),
        WrappedEvent::Terminated => WrappedAction::Terminate,
        WrappedEvent::HungUp => WrappedAction::HangUp,
        WrappedEvent::Verdict(v) => WrappedAction::Store(v),
    }
}

/// What a wrapper says at its end: what became of applying the work where that was asked for.
pub open spec fn wrapped_text(run: RunRecord, outcome: Option<ApplyOutcome>) -> Seq<char> {
    match outcome {
        Some(o) => outcome_text(run, o),
        None => "Attached work "@ + run.id@ + " finished; next: dispatch check "@ + run.id@,
    }
}

/// What a wrapper says at its end: what became of applying the work where that was asked for.
pub fn wrapped_end(run: &RunRecord, outcome: Option<&ApplyOutcome>) -> (r: String)
    ensures
        r@ == wrapped_text(
            *run,
            match outcome {
                Some(o) => Some(*o),
                None => None,
            },
        ),
{
    match outcome {
        Some(o) => auto_apply_outcome(run, o),
        None => {
            let mut text = "Attached work ".to_owned();
            text.push_str(run.id.as_str());
            text.push_str(" finished; next: dispatch check ");
            text.push_str(run.id.as_str());
            text
        },
    }
}

} // verus!
