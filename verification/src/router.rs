//! Resource selection: which configured profile runs a task.

use vstd::prelude::*;

use crate::private_evidence::DecisionEvidence;

use crate::text::{
    copy_optional, debug_of, debug_text, optional_str, optional_view, same, same_optional,
};

verus! {

/// How strong a model a profile offers.
#[derive(Debug, Clone, Copy, PartialEq, Eq, Structural)]
pub enum ResourceTier {
    Light,
    Standard,
    Strong,
}

/// The kind of work that a task asks for.
#[derive(Debug, Clone, Copy, PartialEq, Eq, Structural)]
pub enum TaskKind {
    Feature,
    Refactor,
    Tests,
    BugFix,
    Unknown,
}

/// How many files a task reaches.
#[derive(Debug, Clone, Copy, PartialEq, Eq, Structural)]
pub enum TaskScope {
    Localized,
    MultiFile,
    Broad,
    Unknown,
}

impl TaskKind {
    /// The name of the kind.
    pub open spec fn name(self) -> Seq<char> {
        match self {
            TaskKind::Feature => "feature"@,
            TaskKind::Refactor => "refactor"@,
            TaskKind::Tests => "tests"@,
            TaskKind::BugFix => "bug_fix"@,
            TaskKind::Unknown => "unknown"@,
        }
    }

    /// The name of the kind as records write it.
    pub fn as_str(&self) -> (r: &'static str)
        ensures
            r@ == self.name(),
    {
        match self {
            TaskKind::Feature => "feature",
            TaskKind::Refactor => "refactor",
            TaskKind::Tests => "tests",
            TaskKind::BugFix => "bug_fix",
            TaskKind::Unknown => "unknown",
        }
    }
}

impl TaskScope {
    /// The name of the reach.
    pub open spec fn name(self) -> Seq<char> {
        match self {
            TaskScope::Localized => "localized"@,
            TaskScope::MultiFile => "multi_file"@,
            TaskScope::Broad => "broad"@,
            TaskScope::Unknown => "unknown"@,
        }
    }

    /// The name of the reach as records write it.
    pub fn as_str(&self) -> (r: &'static str)
        ensures
            r@ == self.name(),
    {
        match self {
            TaskScope::Localized => "localized",
            TaskScope::MultiFile => "multi_file",
            TaskScope::Broad => "broad",
            TaskScope::Unknown => "unknown",
        }
    }
}

/// What is known of a task before any agent runs.
#[derive(Debug, Clone, PartialEq, Eq)]
pub struct TaskFeatures {
    pub language: Option<String>,
    pub task_kind: TaskKind,
    pub scope: TaskScope,
}

impl Default for TaskFeatures {
    fn default() -> (r: Self)
        ensures
            r.language is None,
            r.task_kind == TaskKind::Unknown,
            r.scope == TaskScope::Unknown,
    {
        TaskFeatures { language: None, task_kind: TaskKind::Unknown, scope: TaskScope::Unknown }
    }
}

impl TaskFeatures {
    /// An exact copy.
    pub fn copied(&self) -> (r: Self)
        ensures
            r == *self,
    {
        TaskFeatures {
            language: copy_optional(&self.language),
            task_kind: self.task_kind,
            scope: self.scope,
        }
    }
}

impl ResourceTier {
    /// The name of the tier.
    pub open spec fn name(self) -> Seq<char> {
        match self {
            ResourceTier::Light => "light"@,
            ResourceTier::Standard => "standard"@,
            ResourceTier::Strong => "strong"@,
        }
    }

    /// The name of the tier as configuration and messages write it.
    pub fn as_str(&self) -> (r: &'static str)
        ensures
            r@ == self.name(),
    {
        match self {
            ResourceTier::Light => "light",
            ResourceTier::Standard => "standard",
            ResourceTier::Strong => "strong",
        }
    }
}

/// One configured way to run a model.
#[derive(Debug, Clone, PartialEq, Eq)]
pub struct ResourceProfile {
    pub enabled: bool,
    pub provider: String,
    pub funding_source: String,
    pub harness: String,
    pub model: String,
    pub effort: Option<String>,
    pub service_mode: String,
    pub runtime: String,
    pub pool: String,
    pub provider_buckets: Vec<String>,
    pub tier: ResourceTier,
    pub included: bool,
    pub no_overage_verified: bool,
    pub authorization_revision: u64,
    pub claude_subscription: Option<SubscriptionEvidence>,
    /// Why the evidence kept for this profile does not hold at present, if it does not.
    pub stale_evidence: Option<String>,
}

/// What was confirmed of a subscription, and until when the confirmation counts.
#[derive(Debug, Clone, PartialEq, Eq)]
pub struct SubscriptionEvidence {
    pub contract_version: u32,
    pub cli_version: String,
    pub executable_sha256: String,
    pub account_sha256: String,
    /// Microseconds since the epoch.
    pub checked_at: i64,
    pub valid_until: i64,
    pub print_mode_included: bool,
    pub usage_credits_disabled: bool,
    pub unmanaged_account: bool,
}

impl SubscriptionEvidence {
    /// An exact copy.
    pub fn copied(&self) -> (r: Self)
        ensures
            r == *self,
    {
        SubscriptionEvidence {
            contract_version: self.contract_version,
            cli_version: self.cli_version.clone(),
            executable_sha256: self.executable_sha256.clone(),
            account_sha256: self.account_sha256.clone(),
            checked_at: self.checked_at,
            valid_until: self.valid_until,
            print_mode_included: self.print_mode_included,
            usage_credits_disabled: self.usage_credits_disabled,
            unmanaged_account: self.unmanaged_account,
        }
    }
}

/// The configured resources in file order.
#[derive(Debug, Clone, PartialEq, Eq)]
pub struct ResourceConfig {
    pub version: u32,
    pub allocation_enabled: bool,
    pub profiles: Vec<ResourceProfile>,
}

/// Why a profile may not run anything, in the order in which the reasons are looked at.
pub open spec fn ineligibility(p: ResourceProfile) -> Option<Seq<char>> {
    if !p.enabled {
        Some("profile is disabled"@)
    } else if !p.included {
        Some("profile is not confirmed as included"@)
    } else if !p.no_overage_verified {
        Some("paid overage is not verified as impossible"@)
    } else {
        optional_view(p.stale_evidence)
    }
}

impl ResourceProfile {
    /// Whether the profile may run at all: it is enabled, its funding is confirmed as included
    /// and free of overage, and the evidence kept for it still holds.
    pub fn eligibility(&self) -> (r: Result<(), String>)
        ensures
            match ineligibility(*self) {
                None => r is Ok,
                Some(reason) => r matches Err(e) && e@ == reason,
            },
    {
        if !self.enabled {
            Err("profile is disabled".to_owned())
        } else if !self.included {
            Err("profile is not confirmed as included".to_owned())
        } else if !self.no_overage_verified {
            Err("paid overage is not verified as impossible".to_owned())
        } else {
            match &self.stale_evidence {
                Some(reason) => Err(reason.clone()),
                None => Ok(()),
            }
        }
    }
}

/// Whether two profiles hold the same.
pub open spec fn same_profile(a: ResourceProfile, b: ResourceProfile) -> bool {
    &&& a.provider_buckets@ == b.provider_buckets@
    &&& a == (ResourceProfile { provider_buckets: a.provider_buckets, ..b })
}

impl ResourceProfile {
    /// A copy that holds the same.
    pub fn copied(&self) -> (r: Self)
        ensures
            same_profile(r, *self),
    {
        let mut provider_buckets: Vec<String> = Vec::new();
        let mut i: usize = 0;
        while i < self.provider_buckets.len()
            invariant
                i <= self.provider_buckets.len(),
                provider_buckets@ == self.provider_buckets@.take(i as int),
            decreases self.provider_buckets.len() - i,
        {
            provider_buckets.push(self.provider_buckets[i].clone());
            i += 1;
        }
        assert(self.provider_buckets@.take(self.provider_buckets@.len() as int)
            =~= self.provider_buckets@);
        let claude_subscription = match &self.claude_subscription {
            Some(e) => Some(e.copied()),
            None => None,
        };
        ResourceProfile {
            enabled: self.enabled,
            provider: self.provider.clone(),
            funding_source: self.funding_source.clone(),
            harness: self.harness.clone(),
            model: self.model.clone(),
            effort: copy_optional(&self.effort),
            service_mode: self.service_mode.clone(),
            runtime: self.runtime.clone(),
            pool: self.pool.clone(),
            provider_buckets,
            tier: self.tier,
            included: self.included,
            no_overage_verified: self.no_overage_verified,
            authorization_revision: self.authorization_revision,
            claude_subscription,
            stale_evidence: copy_optional(&self.stale_evidence),
        }
    }
}

/// The resource that a decision names.
#[derive(Debug, Clone, PartialEq, Eq)]
pub struct ResourceChoice {
    pub provider: String,
    pub funding_source: String,
    pub harness: String,
    pub requested_model: String,
    pub resolved_model: String,
    pub effort: Option<String>,
    pub service_mode: String,
    pub runtime: String,
    pub pool: String,
    pub tier: ResourceTier,
    pub no_overage_verified: bool,
    pub internal_composition: String,
}

impl ResourceChoice {
    /// An exact copy.
    pub fn copied(&self) -> (r: Self)
        ensures
            r == *self,
    {
        ResourceChoice {
            provider: self.provider.clone(),
            funding_source: self.funding_source.clone(),
            harness: self.harness.clone(),
            requested_model: self.requested_model.clone(),
            resolved_model: self.resolved_model.clone(),
            effort: copy_optional(&self.effort),
            service_mode: self.service_mode.clone(),
            runtime: self.runtime.clone(),
            pool: self.pool.clone(),
            tier: self.tier,
            no_overage_verified: self.no_overage_verified,
            internal_composition: self.internal_composition.clone(),
        }
    }
}

/// One profile as the decision saw it.
#[derive(Debug, Clone, PartialEq, Eq)]
pub struct AllocationAlternative {
    pub choice: ResourceChoice,
    pub eligible: bool,
    pub exclusion: Option<String>,
}

/// One model that a harness offers.
#[derive(Debug, Clone, PartialEq, Eq)]
pub struct ModelCapability {
    pub model: String,
    pub efforts: Vec<String>,
    pub included: bool,
    pub no_overage_verified: bool,
}

/// What the selected harness offered when the decision was made.
#[derive(Debug, Clone, PartialEq, Eq)]
pub struct CapabilitySnapshot {
    pub version: u32,
    pub source: String,
    pub harness: String,
    /// Microseconds since the epoch.
    pub observed_at: i64,
    pub models: Vec<ModelCapability>,
}

/// A recorded selection with everything it was chosen from.
#[derive(Debug, Clone, PartialEq, Eq)]
pub struct AllocationDecision {
    pub version: u32,
    pub policy_version: String,
    pub task_features: TaskFeatures,
    pub selected: ResourceChoice,
    pub reason: String,
    pub capability: CapabilitySnapshot,
    pub alternatives: Vec<AllocationAlternative>,
    /// What private evidence said when the decision was made.
    pub private_evidence: Option<DecisionEvidence>,
}

/// The rank of a tier: a higher rank is a stronger model.
pub open spec fn rank(tier: ResourceTier) -> int {
    match tier {
        ResourceTier::Light => 0,
        ResourceTier::Standard => 1,
        ResourceTier::Strong => 2,
    }
}

/// The rank of a tier.
pub fn tier_rank(tier: &ResourceTier) -> (r: u8)
    ensures
        r == rank(*tier),
{
    match tier {
        ResourceTier::Light => 0,
        ResourceTier::Standard => 1,
        ResourceTier::Strong => 2,
    }
}

/// The lowest tier that suits a task, and the sentence that says why.
pub open spec fn policy(features: TaskFeatures) -> (ResourceTier, Seq<char>) {
    if features.scope == TaskScope::Broad {
        (ResourceTier::Strong, "Using strong: the task has broad scope."@)
    } else if features.task_kind == TaskKind::Feature || features.task_kind == TaskKind::Refactor {
        (ResourceTier::Strong, "Using strong: the task is classified as feature or refactor work."@)
    } else if features.task_kind == TaskKind::Tests && features.scope == TaskScope::Localized {
        (ResourceTier::Light, "Using light: the task requests tests for an identified file."@)
    } else if features.task_kind == TaskKind::Unknown || features.scope == TaskScope::Unknown {
        (ResourceTier::Standard, "Using standard: the task type or affected files are unknown."@)
    } else {
        (
            ResourceTier::Standard,
            "Using standard: the task is ordinary implementation or tests spanning multiple files."@,
        )
    }
}

/// The lowest tier that suits a task, and the sentence that says why.
pub fn allocation_policy(features: &TaskFeatures) -> (r: (ResourceTier, &'static str))
    ensures
        (r.0, r.1@) == policy(*features),
{
    match (&features.task_kind, &features.scope) {
        (_, TaskScope::Broad) => (
            ResourceTier::Strong,
            "Using strong: the task has broad scope.",
        ),
        (TaskKind::Feature, _) | (TaskKind::Refactor, _) => (
            ResourceTier::Strong,
            "Using strong: the task is classified as feature or refactor work.",
        ),
        (TaskKind::Tests, TaskScope::Localized) => (
            ResourceTier::Light,
            "Using light: the task requests tests for an identified file.",
        ),
        (TaskKind::Unknown, _) | (_, TaskScope::Unknown) => (
            ResourceTier::Standard,
            "Using standard: the task type or affected files are unknown.",
        ),
        _ => (
            ResourceTier::Standard,
            "Using standard: the task is ordinary implementation or tests spanning multiple files.",
        ),
    }
}

/// Whether `c` is the choice that profile `p` stands for.
pub open spec fn stands_for(c: ResourceChoice, p: ResourceProfile) -> bool {
    &&& c.provider == p.provider
    &&& c.funding_source == p.funding_source
    &&& c.harness == p.harness
    &&& c.requested_model == p.model
    &&& c.resolved_model == p.model
    &&& c.effort == p.effort
    &&& c.service_mode == p.service_mode
    &&& c.runtime == p.runtime
    &&& c.pool == p.pool
    &&& c.tier == p.tier
    &&& c.no_overage_verified == p.no_overage_verified
    &&& c.internal_composition@ == "unknown"@
}

/// The choice that a profile stands for.
pub fn profile_choice(profile: &ResourceProfile) -> (r: ResourceChoice)
    ensures
        stands_for(r, *profile),
{
    ResourceChoice {
        provider: profile.provider.clone(),
        funding_source: profile.funding_source.clone(),
        harness: profile.harness.clone(),
        requested_model: profile.model.clone(),
        resolved_model: profile.model.clone(),
        effort: copy_optional(&profile.effort),
        service_mode: profile.service_mode.clone(),
        runtime: profile.runtime.clone(),
        pool: profile.pool.clone(),
        tier: profile.tier,
        no_overage_verified: profile.no_overage_verified,
        internal_composition: "unknown".to_owned(),
    }
}

/// What a selection asks for, with the command line before the project.
pub ghost struct Request {
    pub backend: Seq<char>,
    pub model: Option<Seq<char>>,
    pub effort: Option<Seq<char>>,
    pub minimum: Option<ResourceTier>,
    pub default_tier: ResourceTier,
}

impl Request {
    /// The tier that a profile must reach.
    pub open spec fn desired(self) -> ResourceTier {
        match self.minimum {
            Some(tier) => tier,
            None => self.default_tier,
        }
    }
}

/// The first of two optional texts that is there.
pub open spec fn either(a: Option<Seq<char>>, b: Option<Seq<char>>) -> Option<Seq<char>> {
    match a {
        Some(text) => Some(text),
        None => b,
    }
}

/// Why `p` cannot be selected, if it cannot: the reasons in the order in which they are given.
pub open spec fn exclusion_of(
    p: ResourceProfile,
    given: Option<Seq<char>>,
    q: Request,
) -> Option<Seq<char>> {
    if given is Some {
        given
    } else if ineligibility(p) is Some {
        ineligibility(p)
    } else if p.runtime@ != q.backend {
        Some("profile runtime does not match the "@ + q.backend + " execution backend"@)
    } else if q.model is Some && p.model@ != q.model->0 {
        Some("model does not satisfy the fixed selection constraint"@)
    } else if q.effort is Some && optional_view(p.effort) != q.effort {
        Some("effort does not satisfy the fixed selection constraint"@)
    } else if (q.minimum is Some || q.model is None) && rank(p.tier) < rank(q.desired()) {
        Some("policy requires at least the "@ + q.desired().name() + " tier"@)
    } else {
        None
    }
}

/// The reason given from outside for leaving out the profile at `index`, if there is one.
pub open spec fn given_reason(exclusions: Seq<Option<String>>, index: int) -> Option<Seq<char>> {
    if 0 <= index < exclusions.len() {
        optional_view(exclusions[index])
    } else {
        None
    }
}

/// Whether `k` is the first of the alternatives that is eligible.
pub open spec fn first_eligible(alternatives: Seq<AllocationAlternative>, k: int) -> bool {
    &&& 0 <= k < alternatives.len()
    &&& alternatives[k].eligible
    &&& forall|j: int| 0 <= j < k ==> !(#[trigger] alternatives[j]).eligible
}

/// Whether `alternatives` holds one entry per profile, in order, with its reason for exclusion.
pub open spec fn alternatives_of(
    alternatives: Seq<AllocationAlternative>,
    profiles: Seq<ResourceProfile>,
    exclusions: Seq<Option<String>>,
    q: Request,
) -> bool {
    &&& alternatives.len() == profiles.len()
    &&& forall|i: int|
        0 <= i < profiles.len() ==> {
            let a = #[trigger] alternatives[i];
            &&& stands_for(a.choice, profiles[i])
            &&& optional_view(a.exclusion) == exclusion_of(
                profiles[i],
                given_reason(exclusions, i),
                q,
            )
            &&& a.eligible == (a.exclusion is None)
        }
}

/// Whether some profile can be selected.
pub open spec fn some_eligible(
    profiles: Seq<ResourceProfile>,
    exclusions: Seq<Option<String>>,
    q: Request,
) -> bool {
    exists|i: int|
        0 <= i < profiles.len() && exclusion_of(
            #[trigger] profiles[i],
            given_reason(exclusions, i),
            q,
        ) is None
}

/// The profiles that run under `harness`, in order.
pub open spec fn under_harness(
    profiles: Seq<ResourceProfile>,
    harness: Seq<char>,
) -> Seq<ResourceProfile> {
    profiles.filter(|p: ResourceProfile| p.harness@ == harness)
}

/// Whether `models` lists the models of `profiles` one for one.
pub open spec fn models_of(models: Seq<ModelCapability>, profiles: Seq<ResourceProfile>) -> bool {
    &&& models.len() == profiles.len()
    &&& forall|i: int|
        0 <= i < profiles.len() ==> {
            let m = #[trigger] models[i];
            &&& m.model == profiles[i].model
            &&& m.included == profiles[i].included
            &&& m.no_overage_verified == profiles[i].no_overage_verified
            &&& m.efforts@ == (match profiles[i].effort {
                Some(effort) => seq![effort],
                None => Seq::empty(),
            })
        }
}

/// The sentence that a decision for a resource of `tier` gives.
pub open spec fn selection_reason(
    requested: bool,
    fixed: bool,
    tier: ResourceTier,
    q: Request,
    policy_reason: Seq<char>,
) -> Seq<char> {
    if requested {
        "Explicit model or effort constraint selected this resource."@
    } else if fixed {
        "Project harness configuration fixed this resource."@
    } else if tier != q.desired() {
        "Minimum suitable lane is "@ + q.desired().name() + "; the first available configured "@
            + tier.name() + " resource was selected."@
    } else {
        policy_reason
    }
}

/// What is said when no profile can be selected.
pub open spec fn nothing_suitable(q: Request) -> Seq<char> {
    match q.model {
        Some(model) => match q.effort {
            Some(effort) => "no included, no-overage-verified resource profile matches model "@
                + debug_text(model) + " and effort "@ + debug_text(effort),
            None => "no included, no-overage-verified resource profile matches model "@
                + debug_text(model),
        },
        None => "no included, no-overage-verified resource profile is configured for the "@
            + q.desired().name() + " tier"@,
    }
}

/// The conflict between what the command line asks for and what the project fixes, if any.
pub open spec fn constraint_conflict(
    requested_model: Option<Seq<char>>,
    requested_effort: Option<Seq<char>>,
    fixed_model: Option<Seq<char>>,
    fixed_effort: Option<Seq<char>>,
) -> Option<Seq<char>> {
    if requested_model is Some && fixed_model is Some && requested_model != fixed_model {
        Some(
            "--model "@ + debug_text(requested_model->0)
                + " conflicts with fixed harnesses.codex.model "@ + debug_text(fixed_model->0),
        )
    } else if requested_effort is Some && fixed_effort is Some && requested_effort != fixed_effort {
        Some(
            "--effort "@ + debug_text(requested_effort->0)
                + " conflicts with fixed harnesses.codex.effort "@ + debug_text(fixed_effort->0),
        )
    } else {
        None
    }
}

/// The request that the arguments of a selection make.
pub open spec fn request_of(
    features: TaskFeatures,
    execution_backend: Seq<char>,
    requested_model: Option<Seq<char>>,
    requested_effort: Option<Seq<char>>,
    fixed_model: Option<Seq<char>>,
    fixed_effort: Option<Seq<char>>,
    minimum: Option<ResourceTier>,
) -> Request {
    Request {
        backend: execution_backend,
        model: either(requested_model, fixed_model),
        effort: either(requested_effort, fixed_effort),
        minimum,
        default_tier: policy(features).0,
    }
}

/// What a selection gives for these arguments.
pub open spec fn selection_result(
    r: Result<AllocationDecision, String>,
    profiles: Seq<ResourceProfile>,
    features: TaskFeatures,
    execution_backend: Seq<char>,
    requested_model: Option<Seq<char>>,
    requested_effort: Option<Seq<char>>,
    fixed_model: Option<Seq<char>>,
    fixed_effort: Option<Seq<char>>,
    exclusions: Seq<Option<String>>,
    minimum: Option<ResourceTier>,
) -> bool {
    let q = request_of(
        features,
        execution_backend,
        requested_model,
        requested_effort,
        fixed_model,
        fixed_effort,
        minimum,
    );
    match constraint_conflict(requested_model, requested_effort, fixed_model, fixed_effort) {
        Some(message) => r matches Err(e) && e@ == message,
        None => if !some_eligible(profiles, exclusions, q) {
            r matches Err(e) && e@ == nothing_suitable(q)
        } else {
            &&& r matches Ok(d)
            &&& d.version == 1
            &&& d.policy_version@ == "allocation-portfolio-v3"@
            &&& d.task_features == features
            &&& alternatives_of(d.alternatives@, profiles, exclusions, q)
            &&& exists|k: int|
                first_eligible(d.alternatives@, k) && d.selected == (
                #[trigger] d.alternatives@[k]).choice
            &&& d.reason@ == selection_reason(
                requested_model is Some || requested_effort is Some,
                fixed_model is Some || fixed_effort is Some,
                d.selected.tier,
                q,
                policy(features).1,
            )
            &&& d.capability.version == 1
            &&& d.capability.source@ == "user_validated_profile"@
            &&& d.capability.harness == d.selected.harness
            &&& models_of(d.capability.models@, under_harness(profiles, d.selected.harness@))
            &&& d.private_evidence is None
        },
    }
}

/// Selects the resource that runs a task: the first profile in the order of the configuration that
/// suits it. Nothing ranks the profiles that do.
pub fn select_resource(
    resources: &ResourceConfig,
    features: &TaskFeatures,
    execution_backend: &str,
    requested_model: Option<&str>,
    requested_effort: Option<&str>,
    fixed_model: Option<&str>,
    fixed_effort: Option<&str>,
) -> (r: Result<AllocationDecision, String>)
    ensures
        selection_result(
            r,
            resources.profiles@,
            *features,
            execution_backend@,
            optional_str(requested_model),
            optional_str(requested_effort),
            optional_str(fixed_model),
            optional_str(fixed_effort),
            Seq::empty(),
            None,
        ),
{
    let none: Vec<Option<String>> = Vec::new();
    select_resource_filtered(
        resources,
        features,
        execution_backend,
        requested_model,
        requested_effort,
        fixed_model,
        fixed_effort,
        &none,
    )
}

/// Selects as [`select_resource`] does, leaving out the profiles that have a reason in
/// `exclusions`.
pub fn select_resource_filtered(
    resources: &ResourceConfig,
    features: &TaskFeatures,
    execution_backend: &str,
    requested_model: Option<&str>,
    requested_effort: Option<&str>,
    fixed_model: Option<&str>,
    fixed_effort: Option<&str>,
    exclusions: &Vec<Option<String>>,
) -> (r: Result<AllocationDecision, String>)
    ensures
        selection_result(
            r,
            resources.profiles@,
            *features,
            execution_backend@,
            optional_str(requested_model),
            optional_str(requested_effort),
            optional_str(fixed_model),
            optional_str(fixed_effort),
            exclusions@,
            None,
        ),
{
    select_resource_filtered_lane(
        resources,
        features,
        execution_backend,
        requested_model,
        requested_effort,
        fixed_model,
        fixed_effort,
        exclusions,
        None,
    )
}

fn conflict_text(
    flag: &str,
    requested: &str,
    between: &str,
    fixed: &str,
) -> (r: String)
    ensures
        r@ == flag@ + debug_text(requested@) + between@ + debug_text(fixed@),
{
    let mut out = flag.to_owned();
    out.push_str(debug_of(requested).as_str());
    out.push_str(between);
    out.push_str(debug_of(fixed).as_str());
    out
}

fn find_conflict(
    requested_model: Option<&str>,
    requested_effort: Option<&str>,
    fixed_model: Option<&str>,
    fixed_effort: Option<&str>,
) -> (r: Option<String>)
    ensures
        optional_view(r) == constraint_conflict(
            optional_str(requested_model),
            optional_str(requested_effort),
            optional_str(fixed_model),
            optional_str(fixed_effort),
        ),
{
    if let (Some(requested), Some(fixed)) = (requested_model, fixed_model) {
        if !same(requested, fixed) {
            return Some(
                conflict_text(
                    "--model ",
                    requested,
                    " conflicts with fixed harnesses.codex.model ",
                    fixed,
                ),
            );
        }
    }
    if let (Some(requested), Some(fixed)) = (requested_effort, fixed_effort) {
        if !same(requested, fixed) {
            return Some(
                conflict_text(
                    "--effort ",
                    requested,
                    " conflicts with fixed harnesses.codex.effort ",
                    fixed,
                ),
            );
        }
    }
    None
}

fn exclusion_reason(
    profile: &ResourceProfile,
    given: Option<&String>,
    execution_backend: &str,
    model: Option<&str>,
    effort: Option<&str>,
    minimum: Option<ResourceTier>,
    default_tier: ResourceTier,
) -> (r: Option<String>)
    ensures
        optional_view(r) == exclusion_of(
            *profile,
            (match given {
                Some(reason) => Some(reason@),
                None => None,
            }),
            Request {
                backend: execution_backend@,
                model: optional_str(model),
                effort: optional_str(effort),
                minimum,
                default_tier,
            },
        ),
{
    if let Some(reason) = given {
        return Some(reason.clone());
    }
    if let Err(error) = profile.eligibility() {
        return Some(error);
    }
    if !same(profile.runtime.as_str(), execution_backend) {
        let mut out = "profile runtime does not match the ".to_owned();
        out.push_str(execution_backend);
        out.push_str(" execution backend");
        return Some(out);
    }
    if let Some(model) = model {
        if !same(profile.model.as_str(), model) {
            return Some("model does not satisfy the fixed selection constraint".to_owned());
        }
    }
    if effort.is_some() && !same_optional(&profile.effort, effort) {
        return Some("effort does not satisfy the fixed selection constraint".to_owned());
    }
    let desired = match minimum {
        Some(tier) => tier,
        None => default_tier,
    };
    if (minimum.is_some() || model.is_none()) && tier_rank(&profile.tier) < tier_rank(&desired) {
        let mut out = "policy requires at least the ".to_owned();
        out.push_str(desired.as_str());
        out.push_str(" tier");
        return Some(out);
    }
    None
}

fn unsuitable_text(
    model: Option<&str>,
    effort: Option<&str>,
    desired: ResourceTier,
) -> (r: String)
    ensures
        forall|q: Request|
            q.model == optional_str(model) && q.effort == optional_str(effort) && q.desired()
                == desired ==> r@ == #[trigger] nothing_suitable(q),
{
    match model {
        Some(model) => {
            let mut out =
                "no included, no-overage-verified resource profile matches model ".to_owned();
            out.push_str(debug_of(model).as_str());
            if let Some(effort) = effort {
                out.push_str(" and effort ");
                out.push_str(debug_of(effort).as_str());
            }
            out
        },
        None => {
            let mut out =
                "no included, no-overage-verified resource profile is configured for the ".to_owned();
            out.push_str(desired.as_str());
            out.push_str(" tier");
            out
        },
    }
}

/// The index of the first eligible alternative, if any is eligible.
fn find_eligible(alternatives: &Vec<AllocationAlternative>) -> (r: Option<usize>)
    ensures
        match r {
            Some(k) => first_eligible(alternatives@, k as int),
            None => forall|j: int| 0 <= j < alternatives.len() ==> !(#[trigger] alternatives@[j]).eligible,
        },
{
    let mut i: usize = 0;
    while i < alternatives.len()
        invariant
            i <= alternatives.len(),
            forall|j: int| 0 <= j < i ==> !(#[trigger] alternatives@[j]).eligible,
        decreases alternatives.len() - i,
    {
        if alternatives[i].eligible {
            return Some(i);
        }
        i += 1;
    }
    None
}

/// The models of the profiles that run under `harness`.
fn harness_models(profiles: &Vec<ResourceProfile>, harness: &str) -> (r: Vec<ModelCapability>)
    ensures
        models_of(r@, under_harness(profiles@, harness@)),
{
    let mut models: Vec<ModelCapability> = Vec::new();
    let mut i: usize = 0;
    let ghost keep = |p: ResourceProfile| p.harness@ == harness@;
    assert(profiles@.take(0).filter(keep) =~= Seq::empty()) by {
        reveal(Seq::filter);
    }
    while i < profiles.len()
        invariant
            i <= profiles.len(),
            keep == (|p: ResourceProfile| p.harness@ == harness@),
            models_of(models@, profiles@.take(i as int).filter(keep)),
        decreases profiles.len() - i,
    {
        let profile = &profiles[i];
        proof {
            reveal(Seq::filter);
            assert(profiles@.take(i as int + 1).drop_last() =~= profiles@.take(i as int));
            assert(profiles@.take(i as int + 1).last() == *profile);
        }
        if same(profile.harness.as_str(), harness) {
            let mut efforts: Vec<String> = Vec::new();
            if let Some(effort) = &profile.effort {
                efforts.push(effort.clone());
                assert(efforts@ =~= seq![*effort]);
            }
            models.push(
                ModelCapability {
                    model: profile.model.clone(),
                    efforts,
                    included: profile.included,
                    no_overage_verified: profile.no_overage_verified,
                },
            );
        }
        i += 1;
    }
    assert(profiles@.take(profiles@.len() as int) =~= profiles@);
    models
}

fn reason_text(
    requested: bool,
    fixed: bool,
    tier: ResourceTier,
    desired: ResourceTier,
    policy_reason: &str,
) -> (r: String)
    ensures
        forall|q: Request|
            q.desired() == desired ==> r@ == #[trigger] selection_reason(
                requested,
                fixed,
                tier,
                q,
                policy_reason@,
            ),
{
    if requested {
        "Explicit model or effort constraint selected this resource.".to_owned()
    } else if fixed {
        "Project harness configuration fixed this resource.".to_owned()
    } else if tier != desired {
        let mut out = "Minimum suitable lane is ".to_owned();
        out.push_str(desired.as_str());
        out.push_str("; the first available configured ");
        out.push_str(tier.as_str());
        out.push_str(" resource was selected.");
        out
    } else {
        policy_reason.to_owned()
    }
}

/// `chrono::Utc::now`, in microseconds since the epoch. Nothing is stated of the time.
#[verifier::external_body]
pub(crate) fn now_micros() -> (r: i64) {
    chrono::Utc::now().timestamp_micros()
}

/// Selects as [`select_resource_filtered`] does; a `minimum` takes the place of the tier that the
/// task's features ask for, and then binds even a fixed model.
pub fn select_resource_filtered_lane(
    resources: &ResourceConfig,
    features: &TaskFeatures,
    execution_backend: &str,
    requested_model: Option<&str>,
    requested_effort: Option<&str>,
    fixed_model: Option<&str>,
    fixed_effort: Option<&str>,
    exclusions: &Vec<Option<String>>,
    minimum: Option<ResourceTier>,
) -> (r: Result<AllocationDecision, String>)
    ensures
        selection_result(
            r,
            resources.profiles@,
            *features,
            execution_backend@,
            optional_str(requested_model),
            optional_str(requested_effort),
            optional_str(fixed_model),
            optional_str(fixed_effort),
            exclusions@,
            minimum,
        ),
{
    if let Some(message) = find_conflict(requested_model, requested_effort, fixed_model, fixed_effort) {
        return Err(message);
    }
    let model = match requested_model {
        Some(model) => Some(model),
        None => fixed_model,
    };
    let effort = match requested_effort {
        Some(effort) => Some(effort),
        None => fixed_effort,
    };
    let (default_tier, policy_reason) = allocation_policy(features);
    let desired = match minimum {
        Some(tier) => tier,
        None => default_tier,
    };
    let ghost q = request_of(
        *features,
        execution_backend@,
        optional_str(requested_model),
        optional_str(requested_effort),
        optional_str(fixed_model),
        optional_str(fixed_effort),
        minimum,
    );
    let profiles = &resources.profiles;
    let mut alternatives: Vec<AllocationAlternative> = Vec::new();
    let mut i: usize = 0;
    while i < profiles.len()
        invariant
            i <= profiles.len(),
            alternatives_of(alternatives@, profiles@.take(i as int), exclusions@, q),
            q == (Request {
                backend: execution_backend@,
                model: optional_str(model),
                effort: optional_str(effort),
                minimum,
                default_tier,
            }),
        decreases profiles.len() - i,
    {
        let given = if i < exclusions.len() {
            exclusions[i].as_ref()
        } else {
            None
        };
        let exclusion = exclusion_reason(
            &profiles[i],
            given,
            execution_backend,
            model,
            effort,
            minimum,
            default_tier,
        );
        alternatives.push(
            AllocationAlternative {
                choice: profile_choice(&profiles[i]),
                eligible: exclusion.is_none(),
                exclusion,
            },
        );
        i += 1;
    }
    assert(profiles@.take(profiles@.len() as int) =~= profiles@);
    let selected = match find_eligible(&alternatives) {
        Some(k) => {
            assert(exclusion_of(profiles@[k as int], given_reason(exclusions@, k as int), q) is None) by {
                assert(alternatives@[k as int].eligible);
            }
            alternatives[k].choice.copied()
        },
        None => {
            assert(!some_eligible(profiles@, exclusions@, q)) by {
                assert forall|j: int| 0 <= j < profiles@.len() implies exclusion_of(
                    #[trigger] profiles@[j],
                    given_reason(exclusions@, j),
                    q,
                ) is Some by {
                    assert(!alternatives@[j].eligible);
                }
            }
            return Err(unsuitable_text(model, effort, desired));
        },
    };
    let capability = CapabilitySnapshot {
        version: 1,
        source: "user_validated_profile".to_owned(),
        harness: selected.harness.clone(),
        observed_at: now_micros(),
        models: harness_models(profiles, selected.harness.as_str()),
    };
    let reason = reason_text(
        requested_model.is_some() || requested_effort.is_some(),
        fixed_model.is_some() || fixed_effort.is_some(),
        selected.tier,
        desired,
        policy_reason,
    );
    Ok(
        AllocationDecision {
            version: 1,
            policy_version: "allocation-portfolio-v3".to_owned(),
            task_features: features.copied(),
            selected,
            reason,
            capability,
            alternatives,
            private_evidence: None,
        },
    )
}

/// A selected resource is a configured profile that may run, that nothing excluded, that runs on
/// the backend in use and that meets the model, the effort and the tier asked for.
pub proof fn selected_resource_is_permitted(
    r: Result<AllocationDecision, String>,
    profiles: Seq<ResourceProfile>,
    features: TaskFeatures,
    backend: Seq<char>,
    requested_model: Option<Seq<char>>,
    requested_effort: Option<Seq<char>>,
    fixed_model: Option<Seq<char>>,
    fixed_effort: Option<Seq<char>>,
    exclusions: Seq<Option<String>>,
    minimum: Option<ResourceTier>,
)
    requires
        selection_result(
            r,
            profiles,
            features,
            backend,
            requested_model,
            requested_effort,
            fixed_model,
            fixed_effort,
            exclusions,
            minimum,
        ),
        r is Ok,
    ensures
        exists|i: int|
            {
                &&& 0 <= i < profiles.len()
                &&& stands_for(r->Ok_0.selected, #[trigger] profiles[i])
                &&& ineligibility(profiles[i]) is None
                &&& given_reason(exclusions, i) is None
                &&& profiles[i].runtime@ == backend
                &&& requested_model is Some ==> Some(profiles[i].model@) == requested_model
                &&& fixed_model is Some ==> Some(profiles[i].model@) == fixed_model
                &&& requested_effort is Some ==> optional_view(profiles[i].effort)
                    == requested_effort
                &&& fixed_effort is Some ==> optional_view(profiles[i].effort) == fixed_effort
                &&& minimum is Some ==> rank(profiles[i].tier) >= rank(minimum->0)
                &&& minimum is None && requested_model is None && fixed_model is None ==> rank(
                    profiles[i].tier,
                ) >= rank(policy(features).0)
            },
{
    let d = r->Ok_0;
    let k = choose|k: int|
        first_eligible(d.alternatives@, k) && d.selected == (#[trigger] d.alternatives@[k]).choice;
    assert(stands_for(d.selected, profiles[k]));
}

/// The selected resource is the first in the order of the configuration: no profile that stands before it
/// could have been selected, whatever its tier.
pub proof fn selected_resource_is_first_in_order(
    r: Result<AllocationDecision, String>,
    profiles: Seq<ResourceProfile>,
    features: TaskFeatures,
    backend: Seq<char>,
    requested_model: Option<Seq<char>>,
    requested_effort: Option<Seq<char>>,
    fixed_model: Option<Seq<char>>,
    fixed_effort: Option<Seq<char>>,
    exclusions: Seq<Option<String>>,
    minimum: Option<ResourceTier>,
)
    requires
        selection_result(
            r,
            profiles,
            features,
            backend,
            requested_model,
            requested_effort,
            fixed_model,
            fixed_effort,
            exclusions,
            minimum,
        ),
        r is Ok,
    ensures
        ({
            let q = request_of(
                features,
                backend,
                requested_model,
                requested_effort,
                fixed_model,
                fixed_effort,
                minimum,
            );
            exists|i: int|
                {
                    &&& 0 <= i < profiles.len()
                    &&& stands_for(r->Ok_0.selected, #[trigger] profiles[i])
                    &&& exclusion_of(profiles[i], given_reason(exclusions, i), q) is None
                    &&& forall|j: int|
                        0 <= j < i ==> exclusion_of(
                            #[trigger] profiles[j],
                            given_reason(exclusions, j),
                            q,
                        ) is Some
                }
        }),
{
    let d = r->Ok_0;
    let q = request_of(
        features,
        backend,
        requested_model,
        requested_effort,
        fixed_model,
        fixed_effort,
        minimum,
    );
    let k = choose|k: int|
        first_eligible(d.alternatives@, k) && d.selected == (#[trigger] d.alternatives@[k]).choice;
    assert(stands_for(d.selected, profiles[k]));
    assert forall|j: int| 0 <= j < k implies exclusion_of(
        #[trigger] profiles[j],
        given_reason(exclusions, j),
        q,
    ) is Some by {
        assert(!d.alternatives@[j].eligible);
    }
}

/// Two selections on the same arguments agree: both fail with the same message, or both select
/// the same profile for the same reason.
pub proof fn selection_is_deterministic(
    r1: Result<AllocationDecision, String>,
    r2: Result<AllocationDecision, String>,
    profiles: Seq<ResourceProfile>,
    features: TaskFeatures,
    backend: Seq<char>,
    requested_model: Option<Seq<char>>,
    requested_effort: Option<Seq<char>>,
    fixed_model: Option<Seq<char>>,
    fixed_effort: Option<Seq<char>>,
    exclusions: Seq<Option<String>>,
    minimum: Option<ResourceTier>,
)
    requires
        selection_result(
            r1,
            profiles,
            features,
            backend,
            requested_model,
            requested_effort,
            fixed_model,
            fixed_effort,
            exclusions,
            minimum,
        ),
        selection_result(
            r2,
            profiles,
            features,
            backend,
            requested_model,
            requested_effort,
            fixed_model,
            fixed_effort,
            exclusions,
            minimum,
        ),
    ensures
        match (r1, r2) {
            (Ok(d1), Ok(d2)) => {
                &&& exists|i: int|
                    0 <= i < profiles.len() && stands_for(d1.selected, #[trigger] profiles[i])
                        && stands_for(d2.selected, profiles[i])
                &&& d1.reason@ == d2.reason@
            },
            (Err(e1), Err(e2)) => e1@ == e2@,
            _ => false,
        },
{
    if let (Ok(d1), Ok(d2)) = (r1, r2) {
        let k1 = choose|k: int|
            first_eligible(d1.alternatives@, k) && d1.selected == (
            #[trigger] d1.alternatives@[k]).choice;
        let k2 = choose|k: int|
            first_eligible(d2.alternatives@, k) && d2.selected == (
            #[trigger] d2.alternatives@[k]).choice;
        assert(d1.alternatives@[k2].eligible);
        assert(d2.alternatives@[k1].eligible);
        assert(k1 == k2);
        assert(stands_for(d1.selected, profiles[k1]));
        assert(stands_for(d2.selected, profiles[k1]));
    }
}

/// Whether a tier is as strong as another: strong is as strong as any, and any is as strong as light.
pub open spec fn as_strong(tier: ResourceTier, other: ResourceTier) -> bool {
    match other {
        ResourceTier::Light => true,
        ResourceTier::Standard => tier != ResourceTier::Light,
        ResourceTier::Strong => tier == ResourceTier::Strong,
    }
}

/// Whether a tier suits a task by itself. Broad work, features and refactoring take a strong one; tests for
/// an identified file take any; everything else, unknown work too, takes more than a light one.
pub open spec fn suits(tier: ResourceTier, features: TaskFeatures) -> bool {
    let demanding = features.scope == TaskScope::Broad || features.task_kind == TaskKind::Feature
        || features.task_kind == TaskKind::Refactor;
    &&& demanding ==> tier == ResourceTier::Strong
    &&& !(features.task_kind == TaskKind::Tests && features.scope == TaskScope::Localized) ==> tier
        != ResourceTier::Light
}

/// Whether a profile may run a task: it is enabled, included, free of overage and its evidence holds; it
/// runs on the backend; it has every model and every effort that anyone names; and its tier reaches the
/// minimum where there is one. Without a minimum a named model may have any tier, and an unnamed one has to
/// suit the task.
pub open spec fn serves(
    p: ResourceProfile,
    features: TaskFeatures,
    backend: Seq<char>,
    requested_model: Option<Seq<char>>,
    requested_effort: Option<Seq<char>>,
    fixed_model: Option<Seq<char>>,
    fixed_effort: Option<Seq<char>>,
    minimum: Option<ResourceTier>,
) -> bool {
    &&& p.enabled && p.included && p.no_overage_verified && p.stale_evidence is None
    &&& p.runtime@ == backend
    &&& requested_model matches Some(model) ==> p.model@ == model
    &&& fixed_model matches Some(model) ==> p.model@ == model
    &&& requested_effort matches Some(effort) ==> p.effort is Some && p.effort->0@ == effort
    &&& fixed_effort matches Some(effort) ==> p.effort is Some && p.effort->0@ == effort
    &&& match minimum {
        Some(tier) => as_strong(p.tier, tier),
        None => requested_model is Some || fixed_model is Some || suits(p.tier, features),
    }
}

/// Whether a profile is left out from outside.
pub open spec fn is_left_out(exclusions: Seq<Option<String>>, i: int) -> bool {
    i < exclusions.len() && exclusions[i] is Some
}

/// What a selection does, over all configurations and requests: it succeeds exactly where some profile that
/// is not left out may run the task; it then takes the first such profile, whole, and lists every profile
/// with whether it could have been taken.
pub proof fn selection_takes_the_first_profile_that_serves(
    r: Result<AllocationDecision, String>,
    profiles: Seq<ResourceProfile>,
    features: TaskFeatures,
    backend: Seq<char>,
    requested_model: Option<Seq<char>>,
    requested_effort: Option<Seq<char>>,
    fixed_model: Option<Seq<char>>,
    fixed_effort: Option<Seq<char>>,
    exclusions: Seq<Option<String>>,
    minimum: Option<ResourceTier>,
)
    requires
        selection_result(
            r,
            profiles,
            features,
            backend,
            requested_model,
            requested_effort,
            fixed_model,
            fixed_effort,
            exclusions,
            minimum,
        ),
    ensures
        r is Ok <==> exists|i: int|
            0 <= i < profiles.len() && !is_left_out(exclusions, i) && serves(
                #[trigger] profiles[i],
                features,
                backend,
                requested_model,
                requested_effort,
                fixed_model,
                fixed_effort,
                minimum,
            ),
        r matches Ok(d) ==> exists|i: int|
            {
                &&& 0 <= i < profiles.len() && !is_left_out(exclusions, i)
                &&& serves(
                    #[trigger] profiles[i],
                    features,
                    backend,
                    requested_model,
                    requested_effort,
                    fixed_model,
                    fixed_effort,
                    minimum,
                )
                &&& d.selected.requested_model == profiles[i].model
                &&& d.selected.resolved_model == profiles[i].model
                &&& d.selected.effort == profiles[i].effort
                &&& d.selected.harness == profiles[i].harness
                &&& d.selected.provider == profiles[i].provider
                &&& d.selected.funding_source == profiles[i].funding_source
                &&& d.selected.service_mode == profiles[i].service_mode
                &&& d.selected.pool == profiles[i].pool
                &&& d.selected.tier == profiles[i].tier
                &&& d.selected.runtime@ == backend
                &&& d.selected.no_overage_verified
                &&& forall|j: int|
                    0 <= j < i ==> is_left_out(exclusions, j) || !serves(
                        #[trigger] profiles[j],
                        features,
                        backend,
                        requested_model,
                        requested_effort,
                        fixed_model,
                        fixed_effort,
                        minimum,
                    )
            },
        r matches Ok(d) ==> d.alternatives@.len() == profiles.len() && forall|j: int|
            0 <= j < profiles.len() ==> (#[trigger] d.alternatives@[j]).choice.requested_model
                == profiles[j].model && (d.alternatives@[j].exclusion is None)
                == d.alternatives@[j].eligible && d.alternatives@[j].eligible == (!is_left_out(
                exclusions,
                j,
            ) && serves(
                profiles[j],
                features,
                backend,
                requested_model,
                requested_effort,
                fixed_model,
                fixed_effort,
                minimum,
            )),
{
    let q = request_of(
        features,
        backend,
        requested_model,
        requested_effort,
        fixed_model,
        fixed_effort,
        minimum,
    );
    let conflict = constraint_conflict(requested_model, requested_effort, fixed_model, fixed_effort);
    assert forall|i: int| 0 <= i < profiles.len() implies (exclusion_of(
        #[trigger] profiles[i],
        given_reason(exclusions, i),
        q,
    ) is None && conflict is None) == (!is_left_out(exclusions, i) && serves(
        profiles[i],
        features,
        backend,
        requested_model,
        requested_effort,
        fixed_model,
        fixed_effort,
        minimum,
    )) by {
        let p = profiles[i];
        if let Some(effort) = p.effort {
            assert(optional_view(p.effort) == Some(effort@));
        }
    }
    if let Ok(d) = r {
        let k = choose|k: int|
            first_eligible(d.alternatives@, k) && d.selected == (#[trigger] d.alternatives@[k]).choice;
        assert(stands_for(d.alternatives@[k].choice, profiles[k]));
        assert forall|j: int| 0 <= j < k implies is_left_out(exclusions, j) || !serves(
            #[trigger] profiles[j],
            features,
            backend,
            requested_model,
            requested_effort,
            fixed_model,
            fixed_effort,
            minimum,
        ) by {
            assert(!d.alternatives@[j].eligible);
        }
    } else if conflict is None {
        assert(!some_eligible(profiles, exclusions, q));
    }
}

/// A model that the command line or the project names is never refused for its tier: without a minimum, a
/// selection succeeds with that model wherever some profile that may run has it, and any effort that is
/// named, on the backend.
pub proof fn a_named_model_is_selected_whatever_its_tier(
    r: Result<AllocationDecision, String>,
    profiles: Seq<ResourceProfile>,
    features: TaskFeatures,
    backend: Seq<char>,
    requested_model: Option<Seq<char>>,
    requested_effort: Option<Seq<char>>,
    fixed_model: Option<Seq<char>>,
    fixed_effort: Option<Seq<char>>,
    exclusions: Seq<Option<String>>,
    minimum: Option<ResourceTier>,
    model: Seq<char>,
    i: int,
)
    requires
        selection_result(
            r,
            profiles,
            features,
            backend,
            requested_model,
            requested_effort,
            fixed_model,
            fixed_effort,
            exclusions,
            minimum,
        ),
        minimum is None,
        requested_model == Some(model) || (requested_model is None && fixed_model == Some(model)),
        fixed_model is Some ==> fixed_model == Some(model),
        requested_effort is Some && fixed_effort is Some ==> requested_effort == fixed_effort,
        0 <= i < profiles.len(),
        !(i < exclusions.len() && exclusions[i] is Some),
        profiles[i].enabled && profiles[i].included && profiles[i].no_overage_verified,
        profiles[i].stale_evidence is None,
        profiles[i].runtime@ == backend,
        profiles[i].model@ == model,
        requested_effort matches Some(effort) ==> profiles[i].effort is Some
            && profiles[i].effort->0@ == effort,
        fixed_effort matches Some(effort) ==> profiles[i].effort is Some && profiles[i].effort->0@
            == effort,
    ensures
        r matches Ok(d) && d.selected.requested_model@ == model && d.selected.resolved_model@ == model,
        requested_effort matches Some(effort) ==> r->Ok_0.selected.effort is Some
            && r->Ok_0.selected.effort->0@ == effort,
        fixed_effort matches Some(effort) ==> r->Ok_0.selected.effort is Some
            && r->Ok_0.selected.effort->0@ == effort,
        requested_model is Some || requested_effort is Some ==> r->Ok_0.reason@
            == "Explicit model or effort constraint selected this resource."@,
        requested_model is None && requested_effort is None ==> r->Ok_0.reason@
            == "Project harness configuration fixed this resource."@,
{
    selection_takes_the_first_profile_that_serves(
        r,
        profiles,
        features,
        backend,
        requested_model,
        requested_effort,
        fixed_model,
        fixed_effort,
        exclusions,
        minimum,
    );
    assert(serves(
        profiles[i],
        features,
        backend,
        requested_model,
        requested_effort,
        fixed_model,
        fixed_effort,
        minimum,
    ));
}

/// What nobody names is decided by the task alone: a selection without a named model, an effort or a
/// minimum gives as its reason the policy for the task where the tier is the lowest that suits, and else
/// says which tiers are meant.
pub proof fn an_unnamed_selection_says_why(
    r: Result<AllocationDecision, String>,
    profiles: Seq<ResourceProfile>,
    features: TaskFeatures,
    backend: Seq<char>,
    requested_model: Option<Seq<char>>,
    requested_effort: Option<Seq<char>>,
    fixed_model: Option<Seq<char>>,
    fixed_effort: Option<Seq<char>>,
    exclusions: Seq<Option<String>>,
    minimum: Option<ResourceTier>,
)
    requires
        selection_result(
            r,
            profiles,
            features,
            backend,
            requested_model,
            requested_effort,
            fixed_model,
            fixed_effort,
            exclusions,
            minimum,
        ),
        requested_model is None && requested_effort is None,
        fixed_model is None && fixed_effort is None,
        minimum is None,
        r is Ok,
    ensures
        suits(r->Ok_0.selected.tier, features),
        features.scope == TaskScope::Broad ==> r->Ok_0.reason@
            == "Using strong: the task has broad scope."@,
        features.scope != TaskScope::Broad && (features.task_kind == TaskKind::Feature
            || features.task_kind == TaskKind::Refactor) ==> r->Ok_0.reason@
            == "Using strong: the task is classified as feature or refactor work."@,
        r->Ok_0.selected.tier == ResourceTier::Light ==> r->Ok_0.reason@
            == "Using light: the task requests tests for an identified file."@,
        r->Ok_0.selected.tier == ResourceTier::Standard && features.task_kind == TaskKind::Tests
            && features.scope == TaskScope::Localized ==> r->Ok_0.reason@
            == "Minimum suitable lane is "@ + "light"@ + "; the first available configured "@
            + "standard"@ + " resource was selected."@,
        r->Ok_0.selected.tier == ResourceTier::Standard && (features.task_kind == TaskKind::Unknown
            || features.scope == TaskScope::Unknown) ==> r->Ok_0.reason@
            == "Using standard: the task type or affected files are unknown."@,
{
    selection_takes_the_first_profile_that_serves(
        r,
        profiles,
        features,
        backend,
        requested_model,
        requested_effort,
        fixed_model,
        fixed_effort,
        exclusions,
        minimum,
    );
}

/// A refused selection says what was asked for: that a named model or effort contradicts the project, or
/// that no profile has the named model and effort, or that none suits the task.
pub proof fn a_refused_selection_says_why(
    r: Result<AllocationDecision, String>,
    profiles: Seq<ResourceProfile>,
    features: TaskFeatures,
    backend: Seq<char>,
    requested_model: Option<Seq<char>>,
    requested_effort: Option<Seq<char>>,
    fixed_model: Option<Seq<char>>,
    fixed_effort: Option<Seq<char>>,
    exclusions: Seq<Option<String>>,
    minimum: Option<ResourceTier>,
)
    requires
        selection_result(
            r,
            profiles,
            features,
            backend,
            requested_model,
            requested_effort,
            fixed_model,
            fixed_effort,
            exclusions,
            minimum,
        ),
        r is Err,
    ensures
        requested_model is Some && fixed_model is Some && requested_model != fixed_model
            ==> r->Err_0@ == "--model "@ + debug_text(requested_model->0)
            + " conflicts with fixed harnesses.codex.model "@ + debug_text(fixed_model->0),
        !(requested_model is Some && fixed_model is Some && requested_model != fixed_model)
            && requested_effort is Some && fixed_effort is Some && requested_effort != fixed_effort
            ==> r->Err_0@ == "--effort "@ + debug_text(requested_effort->0)
            + " conflicts with fixed harnesses.codex.effort "@ + debug_text(fixed_effort->0),
        requested_model is Some && fixed_model is None && requested_effort is None && fixed_effort is None
            ==> r->Err_0@ == "no included, no-overage-verified resource profile matches model "@
            + debug_text(requested_model->0),
        requested_model is Some && requested_effort is Some && fixed_model is None && fixed_effort is None
            ==> r->Err_0@ == "no included, no-overage-verified resource profile matches model "@
            + debug_text(requested_model->0) + " and effort "@ + debug_text(requested_effort->0),
        requested_model is None && fixed_model is None && !(requested_effort is Some && fixed_effort is Some)
            && minimum == Some(ResourceTier::Strong) ==> r->Err_0@
            == "no included, no-overage-verified resource profile is configured for the "@ + "strong"@
            + " tier"@,
{
}

} // verus!
