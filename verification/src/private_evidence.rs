//! Local descriptive evidence. No provider calls, labels inferred from prose, or scores.
//!
//! The rows of runs, attempts and feedback stay authoritative; annotations attest provenance. What
//! is read of them comes in as plain values, and what is counted here is a pure function of those.

pub mod counting;
pub mod policy;
pub mod trying;

use vstd::prelude::*;
use vstd::utf8::encode_utf8;

use crate::text::{
    begins_with, copy_optional, has_prefix, holds, holds_text, optional_str, optional_view, same,
    same_optional, texts,
};
use crate::text_map::TextMap;
use crate::digest::{
    digest, file_hash, hash_text, json_string, json_string_of, text_digest, text_hash,
};
use crate::record::{
    ApplicationState, CheckStatus, FailureKind, ReviewState, RunRecord, VerificationState,
};
use crate::router::{
    AllocationAlternative, AllocationDecision, ResourceChoice, ResourceTier, TaskFeatures, TaskKind,
    TaskScope,
};

verus! {

/// The most goals that one summary counts.
pub const MAX_GOALS: usize = 1000;

/// How far back evidence reaches.
pub const WINDOW_DAYS: i64 = 90;

/// How many reviewed goals the trial rule asks for.
pub const MIN_REVIEWED: u64 = 20;

/// How many quality rejections the trial rule asks for.
pub const MIN_QUALITY_REJECTIONS: u64 = 5;

/// Microseconds in the window of evidence.
pub const WINDOW_MICROS: i64 = 7_776_000_000_000;

/// The name of the base policy.
pub open spec fn base_policy() -> Seq<char> {
    "allocation-portfolio-v3"@
}

/// The name of the trial rule.
pub open spec fn trial_rule() -> Seq<char> {
    "private-quality-trial-v1"@
}

/// What the owner lets evidence do.
#[derive(Debug, Clone, PartialEq, Eq)]
pub struct EvidenceConfig {
    pub shadow: bool,
    /// Explicit owner-selected routine task/check mappings; no natural-language labeling.
    pub routine_mappings: Vec<Mapping>,
}

impl EvidenceConfig {
    /// Whether evidence is switched off altogether.
    pub fn is_disabled(&self) -> (r: bool)
        ensures
            r == (!self.shadow && self.routine_mappings@.len() == 0),
    {
        !self.shadow && self.routine_mappings.len() == 0
    }
}

/// A kind of task that the owner declared routine, with the checks that verify it.
#[derive(Debug, Clone, PartialEq, Eq)]
pub struct Mapping {
    pub id: String,
    pub features: TaskFeatures,
    pub verify: Vec<String>,
}

/// What goals must share for their outcomes to be counted together.
#[derive(Debug, Clone, PartialEq, Eq)]
pub struct ContextKey {
    pub source_key: String,
    pub features: TaskFeatures,
    pub verification: String,
    pub mapping: Option<String>,
    pub base_policy: String,
}

/// A resource as far as its behaviour depends on it.
#[derive(Debug, Clone, PartialEq, Eq)]
pub struct Behavior {
    pub key: String,
    pub executable_known: bool,
    pub provider: String,
    pub harness: String,
    pub requested_model: String,
    pub resolved_model: String,
    pub effort: Option<String>,
    pub runtime: String,
    pub service_mode: String,
}

/// What private evidence said when a decision was made.
#[derive(Debug, Clone, PartialEq, Eq)]
pub struct DecisionEvidence {
    pub version: u32,
    pub context: ContextKey,
    pub behaviors: Vec<Behavior>,
    pub selected_behavior: String,
    pub cutoff: i64,
    pub snapshot_hash: String,
    pub annotation_revision: u64,
    pub base_choice: ResourceChoice,
    pub proposed_choice: Option<ResourceChoice>,
    pub proposal_id: Option<String>,
    pub policy_revision: u64,
    pub mode: String,
    pub reason: String,
    pub counts: Option<Counts>,
    pub cohorts: Option<TextMap<Counts>>,
}

/// Counts over goals.
#[derive(Debug, Clone, PartialEq, Eq)]
pub struct Counts {
    pub goals: u64,
    pub attempts: u64,
    pub launched: u64,
    pub launch_unknown: u64,
    pub prelaunch: u64,
    pub policy_chains: u64,
    pub continuations: u64,
    pub first_attempt_checks: TextMap<u64>,
    pub recovery_triggers: TextMap<u64>,
    pub eligible_executions: u64,
    pub reviewed: u64,
    pub accepted: u64,
    pub rejected: u64,
    pub quality_rejected: u64,
    pub accepted_verified: u64,
    pub accepted_unverified: u64,
    pub accepted_apply_blocked: u64,
    pub missing_review: u64,
    pub deferred: u64,
    pub verification: TextMap<u64>,
    pub failures: TextMap<u64>,
    pub goal_failures: TextMap<u64>,
    pub exclusions: TextMap<u64>,
}

/// How a measured quantity is distributed.
#[derive(Debug, Clone, Copy, PartialEq, Eq, Structural)]
pub struct Distribution {
    pub count: u64,
    pub total: u64,
    pub min: Option<u64>,
    pub max: Option<u64>,
}

/// What goals of one origin cost.
#[derive(Debug, Clone, PartialEq, Eq)]
pub struct Economics {
    pub harness_ms: Distribution,
    pub verification_ms: Distribution,
    pub end_to_end_ms: Distribution,
    pub admission_wait_ms: Distribution,
    pub reported_repair_minutes: Distribution,
    /// Keys hold provider, harness and the original token semantics.
    pub usage: TextMap<Distribution>,
    pub allowance_attribution: String,
    pub cash_cost: Option<u64>,
    pub harness_ms_per_accepted: Option<u64>,
}

/// What was counted over a window of goals.
#[derive(Debug, Clone, PartialEq, Eq)]
pub struct Summary {
    pub version: u32,
    pub cutoff: i64,
    pub since: i64,
    pub annotation_revision: u64,
    pub context: ContextKey,
    pub truncated: bool,
    pub counts: Counts,
    pub origins: TextMap<Counts>,
    pub submissions: TextMap<u64>,
    pub review_provenance: TextMap<u64>,
    pub execution_contexts: TextMap<u64>,
    pub resources: TextMap<Counts>,
    pub economics: TextMap<Economics>,
    pub references: Vec<Reference>,
    pub snapshot_hash: String,
    pub limitations: Vec<String>,
}

/// One goal that a cohort counts, with the facts it was counted by.
#[derive(Debug, Clone, PartialEq, Eq)]
pub struct Reference {
    pub run_id: String,
    pub cohort: String,
    pub feedback_id: String,
    pub annotation_sequence: u64,
    pub delivery: String,
    pub facts: String,
}

/// A statement of the owner about where a goal and its review came from.
#[derive(Debug, Clone, PartialEq, Eq)]
pub struct Annotation {
    pub origin: String,
    pub review: String,
    pub delivery: String,
    pub actor: String,
    pub repair_minutes: Option<u64>,
}

/// An annotation as it is stored.
#[derive(Debug, Clone, PartialEq, Eq)]
pub struct StoredAnnotation {
    pub sequence: u64,
    pub feedback_id: Option<String>,
    pub annotation: Annotation,
}

/// A review of a goal as it is stored.
#[derive(Debug, Clone, PartialEq, Eq)]
pub struct Feedback {
    pub id: String,
    pub outcome: String,
    pub reasons: Vec<String>,
}

/// What an attempt's candidate says of how it ran.
#[derive(Debug, Clone, PartialEq, Eq)]
pub struct ResultFacts {
    pub exit_code: Option<i32>,
    pub timed_out: bool,
    pub duration_ms: u64,
    pub check_statuses: Vec<CheckStatus>,
    pub check_ms: Vec<u64>,
    pub tokens: Option<u64>,
    pub token_semantics: Option<String>,
}

/// What is read of one attempt.
#[derive(Debug, Clone, PartialEq, Eq)]
pub struct AttemptFacts {
    pub role: String,
    pub completed: bool,
    pub reason: Option<String>,
    pub has_parent: bool,
    /// What admission knows of the launch.
    pub launch: Option<String>,
    /// How long admission made it wait.
    pub wait_ms: Option<u64>,
    pub provider: Option<String>,
    pub harness_id: String,
    pub harness_version: Option<String>,
    pub resolved_model: Option<String>,
    pub observed_model: Option<String>,
    pub resolved_effort: Option<String>,
    pub observed_effort: Option<String>,
    pub failure: Option<FailureKind>,
    pub usage_categories: Vec<(String, u64)>,
    pub result: Option<ResultFacts>,
}

/// What the decision of a goal recorded as evidence.
#[derive(Debug, Clone, PartialEq, Eq)]
pub struct DecisionFacts {
    pub context: ContextKey,
    pub selected_behavior: String,
    pub policy_version: String,
}

/// What is read of one goal.
#[derive(Debug, Clone, PartialEq, Eq)]
pub struct GoalFacts {
    pub run_id: String,
    pub mode: String,
    pub backend: String,
    /// Whether a machine submitted it under a grant.
    pub machine: bool,
    pub annotation: Option<StoredAnnotation>,
    pub feedback: Option<Feedback>,
    /// Whether it was planned.
    pub planned: bool,
    /// The durations of the checks that a planned goal committed.
    pub committed_check_ms: Vec<u64>,
    pub elapsed_ms: Option<u64>,
    pub verification: VerificationState,
    pub review: ReviewState,
    pub application: ApplicationState,
    pub failure: Option<FailureKind>,
    pub contributing_attempts: usize,
    pub questions: usize,
    pub attempts: Vec<AttemptFacts>,
    pub decision: Option<DecisionFacts>,
    pub delivery: String,
    pub facts: String,
}

/// What values a distribution describes: how many, their sum as far as it fits, and their bounds.
pub open spec fn describes(d: Distribution, values: Seq<u64>) -> bool {
    &&& d.count == values.len()
    &&& d.total == (if sum(values) <= u64::MAX {
        sum(values)
    } else {
        u64::MAX as int
    })
    &&& match (d.min, d.max) {
        (Some(low), Some(high)) => values.contains(low) && values.contains(high) && forall|i: int|
            0 <= i < values.len() ==> low <= #[trigger] values[i] <= high,
        (None, None) => values.len() == 0,
        _ => false,
    }
}

/// The sum of a sequence.
pub open spec fn sum(values: Seq<u64>) -> int
    decreases values.len(),
{
    if values.len() == 0 {
        0
    } else {
        sum(values.drop_last()) + values.last()
    }
}

impl Distribution {
    /// A distribution of nothing.
    pub fn empty() -> (r: Self)
        ensures
            describes(r, Seq::empty()),
    {
        Distribution { count: 0, total: 0, min: None, max: None }
    }

    /// Takes one more value in.
    pub fn add(&mut self, value: u64)
        requires
            old(self).count < u64::MAX,
        ensures
            final(self).count == old(self).count + 1,
            final(self).total == (if old(self).total + value <= u64::MAX {
                old(self).total + value
            } else {
                u64::MAX as int
            }),
            final(self).min == (match old(self).min {
                Some(low) => Some(if value < low {
                    value
                } else {
                    low
                }),
                None => Some(value),
            }),
            final(self).max == (match old(self).max {
                Some(high) => Some(if value > high {
                    value
                } else {
                    high
                }),
                None => Some(value),
            }),
            forall|values: Seq<u64>| #[trigger]
                describes(*old(self), values) ==> describes(*final(self), values.push(value)),
    {
        let ghost before = *self;
        self.count = self.count + 1;
        self.total = self.total.saturating_add(value);
        self.min = match self.min {
            Some(low) => if value < low {
                Some(value)
            } else {
                Some(low)
            },
            None => Some(value),
        };
        self.max = match self.max {
            Some(high) => if value > high {
                Some(value)
            } else {
                Some(high)
            },
            None => Some(value),
        };
        proof {
            let after = *self;
            assert forall|values: Seq<u64>| #[trigger] describes(before, values) implies describes(
                after,
                values.push(value),
            ) by {
                let later = values.push(value);
                assert(later.drop_last() =~= values);
                assert(later[values.len() as int] == value);
                assert forall|v: u64| values.contains(v) implies later.contains(v) by {
                    let i = choose|i: int| 0 <= i < values.len() && values[i] == v;
                    assert(later[i] == v);
                }
                sum_is_not_negative(values);
            }
        }
    }
}

proof fn sum_is_not_negative(values: Seq<u64>)
    ensures
        sum(values) >= 0,
    decreases values.len(),
{
    if values.len() > 0 {
        sum_is_not_negative(values.drop_last());
    }
}

/// The least value of a distribution is not above the greatest.
pub proof fn distribution_bounds_are_ordered(d: Distribution, values: Seq<u64>)
    requires
        describes(d, values),
        d.count > 0,
    ensures
        d.min is Some,
        d.max is Some,
        d.min->0 <= d.max->0,
{
    assert(values.contains(d.min->0));
    let i = choose|i: int| 0 <= i < values.len() && values[i] == d.min->0;
    assert(values[i] <= d.max->0);
}

/// How often `key` occurs.
pub open spec fn occurrences(keys: Seq<Seq<char>>, key: Seq<char>) -> nat
    decreases keys.len(),
{
    if keys.len() == 0 {
        0
    } else {
        occurrences(keys.drop_last(), key) + (if keys.last() == key {
            1nat
        } else {
            0nat
        })
    }
}

/// Whether a map counts how often each key occurs, and holds no other key.
pub open spec fn tallies(map: TextMap<u64>, keys: Seq<Seq<char>>) -> bool {
    &&& map.in_order()
    &&& forall|key: Seq<char>| #[trigger]
        map.at(key) == (if occurrences(keys, key) > 0 {
            Some(occurrences(keys, key) as u64)
        } else {
            None
        })
}

proof fn occurrences_are_bounded(keys: Seq<Seq<char>>, key: Seq<char>)
    ensures
        occurrences(keys, key) <= keys.len(),
    decreases keys.len(),
{
    if keys.len() > 0 {
        occurrences_are_bounded(keys.drop_last(), key);
    }
}

/// Counts one more occurrence of `key`.
fn bump(map: &mut TextMap<u64>, key: &str, Ghost(keys): Ghost<Seq<Seq<char>>>)
    requires
        tallies(*old(map), keys),
        keys.len() < u64::MAX,
    ensures
        tallies(*final(map), keys.push(key@)),
{
    let ghost later = keys.push(key@);
    proof {
        assert(later.drop_last() =~= keys);
        occurrences_are_bounded(keys, key@);
        assert(map.at(key@) == (if occurrences(keys, key@) > 0 {
            Some(occurrences(keys, key@) as u64)
        } else {
            None
        }));
    }
    let n: u64 = match map.get(key) {
        Some(n) => *n,
        None => 0,
    };
    let ghost before = *map;
    map.insert(key.to_owned(), n + 1);
    proof {
        assert forall|k: Seq<char>| #[trigger]
            map.at(k) == (if occurrences(later, k) > 0 {
                Some(occurrences(later, k) as u64)
            } else {
                None
            }) by {
            if k != key@ {
                assert(map.at(k) == before.at(k));
                assert(occurrences(later, k) == occurrences(keys, k));
            } else {
                assert(occurrences(later, k) == occurrences(keys, k) + 1);
            }
        }
    }
}

/// Counts every occurrence in `more`.
fn bump_all(map: &mut TextMap<u64>, more: &Vec<String>, Ghost(keys): Ghost<Seq<Seq<char>>>)
    requires
        tallies(*old(map), keys),
        keys.len() + more@.len() <= u64::MAX,
    ensures
        tallies(*final(map), keys + texts(more@)),
{
    let mut i: usize = 0;
    assert(keys + texts(more@).take(0) =~= keys);
    while i < more.len()
        invariant
            i <= more.len(),
            keys.len() + more@.len() <= u64::MAX,
            tallies(*map, keys + texts(more@).take(i as int)),
        decreases more.len() - i,
    {
        bump(map, more[i].as_str(), Ghost(keys + texts(more@).take(i as int)));
        assert((keys + texts(more@).take(i as int)).push(more@[i as int]@) =~= keys + texts(more@).take(
            i as int + 1,
        ));
        i += 1;
    }
    assert(texts(more@).take(more@.len() as int) =~= texts(more@));
}

/// What one goal adds to counts: numbers, and the keys that it is counted under.
pub ghost struct Share {
    pub goals: nat,
    pub attempts: nat,
    pub launched: nat,
    pub launch_unknown: nat,
    pub prelaunch: nat,
    pub policy_chains: nat,
    pub continuations: nat,
    pub first_attempt_checks: Seq<Seq<char>>,
    pub recovery_triggers: Seq<Seq<char>>,
    pub eligible_executions: nat,
    pub reviewed: nat,
    pub accepted: nat,
    pub rejected: nat,
    pub quality_rejected: nat,
    pub accepted_verified: nat,
    pub accepted_unverified: nat,
    pub accepted_apply_blocked: nat,
    pub missing_review: nat,
    pub deferred: nat,
    pub verification: Seq<Seq<char>>,
    pub failures: Seq<Seq<char>>,
    pub goal_failures: Seq<Seq<char>>,
    pub exclusions: Seq<Seq<char>>,
}

/// What nothing adds.
pub open spec fn nothing() -> Share {
    Share {
        goals: 0,
        attempts: 0,
        launched: 0,
        launch_unknown: 0,
        prelaunch: 0,
        policy_chains: 0,
        continuations: 0,
        first_attempt_checks: Seq::empty(),
        recovery_triggers: Seq::empty(),
        eligible_executions: 0,
        reviewed: 0,
        accepted: 0,
        rejected: 0,
        quality_rejected: 0,
        accepted_verified: 0,
        accepted_unverified: 0,
        accepted_apply_blocked: 0,
        missing_review: 0,
        deferred: 0,
        verification: Seq::empty(),
        failures: Seq::empty(),
        goal_failures: Seq::empty(),
        exclusions: Seq::empty(),
    }
}

/// What two shares add together.
pub open spec fn together(a: Share, b: Share) -> Share {
    Share {
        goals: a.goals + b.goals,
        attempts: a.attempts + b.attempts,
        launched: a.launched + b.launched,
        launch_unknown: a.launch_unknown + b.launch_unknown,
        prelaunch: a.prelaunch + b.prelaunch,
        policy_chains: a.policy_chains + b.policy_chains,
        continuations: a.continuations + b.continuations,
        first_attempt_checks: a.first_attempt_checks + b.first_attempt_checks,
        recovery_triggers: a.recovery_triggers + b.recovery_triggers,
        eligible_executions: a.eligible_executions + b.eligible_executions,
        reviewed: a.reviewed + b.reviewed,
        accepted: a.accepted + b.accepted,
        rejected: a.rejected + b.rejected,
        quality_rejected: a.quality_rejected + b.quality_rejected,
        accepted_verified: a.accepted_verified + b.accepted_verified,
        accepted_unverified: a.accepted_unverified + b.accepted_unverified,
        accepted_apply_blocked: a.accepted_apply_blocked + b.accepted_apply_blocked,
        missing_review: a.missing_review + b.missing_review,
        deferred: a.deferred + b.deferred,
        verification: a.verification + b.verification,
        failures: a.failures + b.failures,
        goal_failures: a.goal_failures + b.goal_failures,
        exclusions: a.exclusions + b.exclusions,
    }
}

/// Whether counts hold what a share says.
pub open spec fn counted(c: Counts, s: Share) -> bool {
    &&& c.goals == s.goals
    &&& c.attempts == s.attempts
    &&& c.launched == s.launched
    &&& c.launch_unknown == s.launch_unknown
    &&& c.prelaunch == s.prelaunch
    &&& c.policy_chains == s.policy_chains
    &&& c.continuations == s.continuations
    &&& tallies(c.first_attempt_checks, s.first_attempt_checks)
    &&& tallies(c.recovery_triggers, s.recovery_triggers)
    &&& c.eligible_executions == s.eligible_executions
    &&& c.reviewed == s.reviewed
    &&& c.accepted == s.accepted
    &&& c.rejected == s.rejected
    &&& c.quality_rejected == s.quality_rejected
    &&& c.accepted_verified == s.accepted_verified
    &&& c.accepted_unverified == s.accepted_unverified
    &&& c.accepted_apply_blocked == s.accepted_apply_blocked
    &&& c.missing_review == s.missing_review
    &&& c.deferred == s.deferred
    &&& tallies(c.verification, s.verification)
    &&& tallies(c.failures, s.failures)
    &&& tallies(c.goal_failures, s.goal_failures)
    &&& tallies(c.exclusions, s.exclusions)
}

/// Whether no part of a share is larger than `n`.
spec fn within(s: Share, n: nat) -> bool {
    &&& s.goals <= n
    &&& s.attempts <= n
    &&& s.launched <= n
    &&& s.launch_unknown <= n
    &&& s.prelaunch <= n
    &&& s.policy_chains <= n
    &&& s.continuations <= n
    &&& s.first_attempt_checks.len() <= n
    &&& s.recovery_triggers.len() <= n
    &&& s.eligible_executions <= n
    &&& s.reviewed <= n
    &&& s.accepted <= n
    &&& s.rejected <= n
    &&& s.quality_rejected <= n
    &&& s.accepted_verified <= n
    &&& s.accepted_unverified <= n
    &&& s.accepted_apply_blocked <= n
    &&& s.missing_review <= n
    &&& s.deferred <= n
    &&& s.verification.len() <= n
    &&& s.failures.len() <= n
    &&& s.goal_failures.len() <= n
    &&& s.exclusions.len() <= n
}

impl Counts {
    /// Counts over no goal.
    pub fn empty() -> (r: Self)
        ensures
            counted(r, nothing()),
    {
        Counts {
            goals: 0,
            attempts: 0,
            launched: 0,
            launch_unknown: 0,
            prelaunch: 0,
            policy_chains: 0,
            continuations: 0,
            first_attempt_checks: TextMap::new(),
            recovery_triggers: TextMap::new(),
            eligible_executions: 0,
            reviewed: 0,
            accepted: 0,
            rejected: 0,
            quality_rejected: 0,
            accepted_verified: 0,
            accepted_unverified: 0,
            accepted_apply_blocked: 0,
            missing_review: 0,
            deferred: 0,
            verification: TextMap::new(),
            failures: TextMap::new(),
            goal_failures: TextMap::new(),
            exclusions: TextMap::new(),
        }
    }
}

/// What one goal adds to counts.
struct GoalShare {
    attempts: u64,
    launched: u64,
    launch_unknown: u64,
    prelaunch: u64,
    policy_chains: u64,
    continuations: u64,
    first_attempt_checks: Vec<String>,
    recovery_triggers: Vec<String>,
    eligible_executions: u64,
    reviewed: u64,
    accepted: u64,
    rejected: u64,
    quality_rejected: u64,
    accepted_verified: u64,
    accepted_unverified: u64,
    accepted_apply_blocked: u64,
    missing_review: u64,
    deferred: u64,
    verification: Vec<String>,
    failures: Vec<String>,
    goal_failures: Vec<String>,
    exclusions: Vec<String>,
}

impl GoalShare {
    spec fn share(self) -> Share {
        Share {
            goals: 1,
            attempts: self.attempts as nat,
            launched: self.launched as nat,
            launch_unknown: self.launch_unknown as nat,
            prelaunch: self.prelaunch as nat,
            policy_chains: self.policy_chains as nat,
            continuations: self.continuations as nat,
            first_attempt_checks: texts(self.first_attempt_checks@),
            recovery_triggers: texts(self.recovery_triggers@),
            eligible_executions: self.eligible_executions as nat,
            reviewed: self.reviewed as nat,
            accepted: self.accepted as nat,
            rejected: self.rejected as nat,
            quality_rejected: self.quality_rejected as nat,
            accepted_verified: self.accepted_verified as nat,
            accepted_unverified: self.accepted_unverified as nat,
            accepted_apply_blocked: self.accepted_apply_blocked as nat,
            missing_review: self.missing_review as nat,
            deferred: self.deferred as nat,
            verification: texts(self.verification@),
            failures: texts(self.failures@),
            goal_failures: texts(self.goal_failures@),
            exclusions: texts(self.exclusions@),
        }
    }
}

/// Adds what one goal adds.
fn add_share(c: &mut Counts, s: &GoalShare, Ghost(so_far): Ghost<Share>, Ghost(n): Ghost<nat>, Ghost(
    m,
): Ghost<nat>)
    requires
        counted(*old(c), so_far),
        within(so_far, n),
        within(s.share(), m),
        n + m <= u64::MAX,
    ensures
        counted(*final(c), together(so_far, s.share())),
        within(together(so_far, s.share()), n + m),
{
    c.goals = c.goals + 1;
    c.attempts = c.attempts + s.attempts;
    c.launched = c.launched + s.launched;
    c.launch_unknown = c.launch_unknown + s.launch_unknown;
    c.prelaunch = c.prelaunch + s.prelaunch;
    c.policy_chains = c.policy_chains + s.policy_chains;
    c.continuations = c.continuations + s.continuations;
    bump_all(&mut c.first_attempt_checks, &s.first_attempt_checks, Ghost(so_far.first_attempt_checks));
    bump_all(&mut c.recovery_triggers, &s.recovery_triggers, Ghost(so_far.recovery_triggers));
    c.eligible_executions = c.eligible_executions + s.eligible_executions;
    c.reviewed = c.reviewed + s.reviewed;
    c.accepted = c.accepted + s.accepted;
    c.rejected = c.rejected + s.rejected;
    c.quality_rejected = c.quality_rejected + s.quality_rejected;
    c.accepted_verified = c.accepted_verified + s.accepted_verified;
    c.accepted_unverified = c.accepted_unverified + s.accepted_unverified;
    c.accepted_apply_blocked = c.accepted_apply_blocked + s.accepted_apply_blocked;
    c.missing_review = c.missing_review + s.missing_review;
    c.deferred = c.deferred + s.deferred;
    bump_all(&mut c.verification, &s.verification, Ghost(so_far.verification));
    bump_all(&mut c.failures, &s.failures, Ghost(so_far.failures));
    bump_all(&mut c.goal_failures, &s.goal_failures, Ghost(so_far.goal_failures));
    bump_all(&mut c.exclusions, &s.exclusions, Ghost(so_far.exclusions));
}

/// Whether two contexts are the same.
pub open spec fn same_key(a: ContextKey, b: ContextKey) -> bool {
    &&& a.source_key@ == b.source_key@
    &&& optional_view(a.features.language) == optional_view(b.features.language)
    &&& a.features.task_kind == b.features.task_kind
    &&& a.features.scope == b.features.scope
    &&& a.verification@ == b.verification@
    &&& optional_view(a.mapping) == optional_view(b.mapping)
    &&& a.base_policy@ == b.base_policy@
}

fn as_slice_option(s: &Option<String>) -> (r: Option<&str>)
    ensures
        optional_str(r) == optional_view(*s),
{
    match s {
        Some(text) => Some(text.as_str()),
        None => None,
    }
}

/// Whether two contexts are the same.
pub fn same_context(a: &ContextKey, b: &ContextKey) -> (r: bool)
    ensures
        r == same_key(*a, *b),
{
    same(a.source_key.as_str(), b.source_key.as_str()) && same_optional(
        &a.features.language,
        as_slice_option(&b.features.language),
    ) && a.features.task_kind == b.features.task_kind && a.features.scope == b.features.scope && same(
        a.verification.as_str(),
        b.verification.as_str(),
    ) && same_optional(&a.mapping, as_slice_option(&b.mapping)) && same(
        a.base_policy.as_str(),
        b.base_policy.as_str(),
    )
}

/// Where a goal came from, as far as it was stated.
pub open spec fn origin_of(g: GoalFacts) -> Seq<char> {
    match g.annotation {
        Some(a) => a.annotation.origin@,
        None => "unknown"@,
    }
}

/// Where the review of a goal came from, as far as it was stated.
pub open spec fn review_origin_of(g: GoalFacts) -> Seq<char> {
    match g.annotation {
        Some(a) => a.annotation.review@,
        None => "unknown"@,
    }
}

/// What is known of a launch.
#[derive(Debug, Clone, Copy, PartialEq, Eq, Structural)]
pub enum LaunchKnown {
    Launched,
    NotLaunched,
    Unknown,
}

/// What is known of the launch of an attempt. A finished process establishes the launch; a prepared
/// attempt alone does not.
pub open spec fn launch_of(a: AttemptFacts) -> LaunchKnown {
    let word = optional_view(a.launch);
    if word == Some("child_recorded"@) || word == Some("cleanup_confirmed"@) || (a.result matches Some(
        r,
    ) && (r.exit_code is Some || r.timed_out)) {
        LaunchKnown::Launched
    } else if word == Some("launch_intent_committed"@) || word == Some("launch_not_started"@) {
        LaunchKnown::NotLaunched
    } else {
        LaunchKnown::Unknown
    }
}

/// How many of the attempts have a launch of that kind.
pub open spec fn launches(attempts: Seq<AttemptFacts>, kind: LaunchKnown) -> nat
    decreases attempts.len(),
{
    if attempts.len() == 0 {
        0
    } else {
        launches(attempts.drop_last(), kind) + (if launch_of(attempts.last()) == kind {
            1nat
        } else {
            0nat
        })
    }
}

/// The failures of the attempts, in order.
pub open spec fn failure_words(attempts: Seq<AttemptFacts>) -> Seq<Seq<char>>
    decreases attempts.len(),
{
    if attempts.len() == 0 {
        Seq::empty()
    } else {
        match attempts.last().failure {
            Some(f) => failure_words(attempts.drop_last()).push(f.name()),
            None => failure_words(attempts.drop_last()),
        }
    }
}

/// Whether an attempt failed for another reason than the work itself.
pub open spec fn failed_operationally(attempts: Seq<AttemptFacts>) -> bool {
    exists|i: int|
        0 <= i < attempts.len() && (#[trigger] attempts[i]).failure is Some && attempts[i].failure
            != Some(FailureKind::TargetVerification)
}

/// How the checks of the first attempt ended.
pub open spec fn first_checks(g: GoalFacts) -> Seq<char> {
    if g.attempts@.len() == 0 || g.attempts@[0].result is None {
        "not_run"@
    } else {
        let statuses = g.attempts@[0].result->0.check_statuses@;
        if statuses.len() == 0 {
            "not_run_or_not_configured"@
        } else if forall|i: int| 0 <= i < statuses.len() ==> #[trigger] statuses[i] == CheckStatus::Passed {
            "passed"@
        } else if exists|i: int| 0 <= i < statuses.len() && #[trigger] statuses[i] == CheckStatus::Failed {
            "failed"@
        } else {
            "inconclusive"@
        }
    }
}

/// Why an attempt was made after another one.
pub open spec fn trigger_of(a: AttemptFacts) -> Seq<char> {
    if optional_view(a.reason) == Some("target_verification_failure"@) {
        "target_verification_failure"@
    } else {
        "clarification_or_other_continuation"@
    }
}

/// Why the attempts behind the first were made, in order. The tasks of a plan are part of its
/// allocation, not retries.
pub open spec fn triggers(attempts: Seq<AttemptFacts>) -> Seq<Seq<char>>
    decreases attempts.len(),
{
    if attempts.len() <= 1 {
        Seq::empty()
    } else if attempts.last().role@ == "task"@ {
        triggers(attempts.drop_last())
    } else {
        triggers(attempts.drop_last()).push(trigger_of(attempts.last()))
    }
}

/// Whether more than one attempt, or an answered question, went into the delivery.
pub open spec fn is_chain(g: GoalFacts) -> bool {
    ||| g.attempts@.len() != 1
    ||| g.contributing_attempts > 1
    ||| g.questions > 0
    ||| exists|i: int|
        0 <= i < g.attempts@.len() && ((#[trigger] g.attempts@[i]).has_parent || g.attempts@[i].role@
            != "executor"@)
}

/// Whether the review of a goal counts: it was attested for this very review and delivery, by a
/// person for ordinary work or, in a fixture, as synthetic.
pub open spec fn review_counts(g: GoalFacts, domain: bool) -> bool {
    match (g.annotation, g.feedback) {
        (Some(a), Some(f)) => {
            &&& optional_view(a.feedback_id) == Some(f.id@)
            &&& a.annotation.delivery@ == g.delivery@
            &&& (a.annotation.review@ == "human"@ && a.annotation.origin@ == "ordinary"@) || (domain
                && a.annotation.review@ == "synthetic"@ && a.annotation.origin@ == "synthetic"@)
        },
        _ => false,
    }
}

/// Whether the reasons of a rejection are about the quality of the work.
pub open spec fn about_quality(reasons: Seq<String>) -> bool {
    &&& holds(reasons, "correctness"@) || holds(reasons, "completeness"@) || holds(reasons, "rework"@)
    &&& !holds(reasons, "changed-requirements"@)
    &&& !holds(reasons, "source-drift"@)
}

/// Whether the reasons of a rejection are about the quality of the work.
pub fn quality_reason(reasons: &Vec<String>) -> (r: bool)
    ensures
        r == about_quality(reasons@),
{
    (holds_text(reasons, "correctness") || holds_text(reasons, "completeness") || holds_text(
        reasons,
        "rework",
    )) && !holds_text(reasons, "changed-requirements") && !holds_text(reasons, "source-drift")
}

/// Whether what ran was not what was resolved.
pub open spec fn substituted(a: AttemptFacts) -> bool {
    ||| a.observed_model is Some && optional_view(a.observed_model) != optional_view(a.resolved_model)
    ||| a.observed_effort is Some && optional_view(a.observed_effort) != optional_view(
        a.resolved_effort,
    )
}

/// `key` alone where it applies.
pub open spec fn when(applies: bool, key: Seq<char>) -> Seq<Seq<char>> {
    if applies {
        seq![key]
    } else {
        Seq::empty()
    }
}

/// Why a goal is left out of the cohorts: all the reasons, in order.
pub open spec fn exclusions_of(g: GoalFacts, ctx: ContextKey, domain: bool) -> Seq<Seq<char>> {
    let origin = origin_of(g);
    let attempts = g.attempts@;
    when(
        !((origin == "ordinary"@ && !domain) || (origin == "synthetic"@ && domain)),
        "origin_"@ + origin,
    ) + when(
        attempts.len() == 0 || !attempts[0].completed || attempts[0].result is None,
        "unfinished_execution"@,
    ) + when(is_chain(g), "combined_or_continued_delivery"@) + when(
        failed_operationally(attempts),
        "operational_failure"@,
    ) + when(
        g.decision is None || !same_key(g.decision->0.context, ctx),
        "incompatible_or_unknown_task_check_context"@,
    ) + when(ctx.mapping is None, "no_explicit_routine_check_mapping"@) + when(
        attempts.len() == 0 || attempts[0].harness_version is None || attempts[0].resolved_model is None,
        "incomplete_resource_attribution"@,
    ) + when(attempts.len() > 0 && substituted(attempts[0]), "observed_substitution"@)
}

/// One where something holds.
pub open spec fn one_if(holds: bool) -> nat {
    if holds {
        1
    } else {
        0
    }
}

/// What a goal adds to counts.
#[verifier::opaque]
pub open spec fn share_of(g: GoalFacts, ctx: ContextKey, domain: bool) -> Share {
    let attempts = g.attempts@;
    let valid = review_counts(g, domain);
    let accepted = valid && g.feedback->0.outcome@ == "accepted"@;
    let rejected = valid && !accepted;
    let excluded = exclusions_of(g, ctx, domain);
    Share {
        goals: 1,
        attempts: attempts.len(),
        launched: launches(attempts, LaunchKnown::Launched),
        launch_unknown: launches(attempts, LaunchKnown::Unknown),
        prelaunch: launches(attempts, LaunchKnown::NotLaunched) + one_if(attempts.len() == 0),
        policy_chains: one_if(is_chain(g)),
        continuations: triggers(attempts).len(),
        first_attempt_checks: seq![first_checks(g)],
        recovery_triggers: triggers(attempts),
        eligible_executions: one_if(excluded.len() == 0),
        reviewed: one_if(valid),
        accepted: one_if(accepted),
        rejected: one_if(rejected),
        quality_rejected: one_if(rejected && about_quality(g.feedback->0.reasons@)),
        accepted_verified: one_if(accepted && g.verification == VerificationState::Passed),
        accepted_unverified: one_if(accepted && g.verification != VerificationState::Passed),
        accepted_apply_blocked: one_if(
            accepted && g.application == ApplicationState::BlockedBySourceDrift,
        ),
        missing_review: one_if(!valid),
        deferred: one_if(g.review == ReviewState::Deferred),
        verification: seq![g.verification.name()],
        failures: failure_words(attempts),
        goal_failures: match g.failure {
            Some(f) => seq![f.name()],
            None => Seq::empty(),
        },
        exclusions: excluded,
    }
}

/// The cohort that a goal is counted in, if it is counted in one: distinct harness versions and
/// observed identities stay distinct.
pub open spec fn cohort_of(g: GoalFacts, ctx: ContextKey, domain: bool) -> Option<Seq<char>> {
    if exclusions_of(g, ctx, domain).len() == 0 {
        let a = g.attempts@[0];
        Some(
            g.decision->0.selected_behavior@ + "|"@ + a.harness_version->0@ + "|"@ + or_unknown(
                a.observed_model,
            ) + "|"@ + or_unknown(a.observed_effort) + "|"@ + g.decision->0.policy_version@,
        )
    } else {
        None
    }
}

/// A text, or the word for not knowing it.
pub open spec fn or_unknown(s: Option<String>) -> Seq<char> {
    match s {
        Some(text) => text@,
        None => "unknown"@,
    }
}

fn text_or_unknown(s: &Option<String>) -> (r: &str)
    ensures
        r@ == or_unknown(*s),
{
    match s {
        Some(text) => text.as_str(),
        None => "unknown",
    }
}

fn known_launch(a: &AttemptFacts) -> (r: LaunchKnown)
    ensures
        r == launch_of(*a),
{
    let finished = match &a.result {
        Some(result) => result.exit_code.is_some() || result.timed_out,
        None => false,
    };
    if finished || same_optional(&a.launch, Some("child_recorded")) || same_optional(
        &a.launch,
        Some("cleanup_confirmed"),
    ) {
        LaunchKnown::Launched
    } else if same_optional(&a.launch, Some("launch_intent_committed")) || same_optional(
        &a.launch,
        Some("launch_not_started"),
    ) {
        LaunchKnown::NotLaunched
    } else {
        LaunchKnown::Unknown
    }
}

fn first_check_word(g: &GoalFacts) -> (r: &'static str)
    ensures
        r@ == first_checks(*g),
{
    if g.attempts.len() == 0 {
        return "not_run";
    }
    match &g.attempts[0].result {
        None => "not_run",
        Some(result) => {
            let statuses = &result.check_statuses;
            if statuses.len() == 0 {
                return "not_run_or_not_configured";
            }
            let mut all = true;
            let mut failed = false;
            let mut i: usize = 0;
            while i < statuses.len()
                invariant
                    i <= statuses.len(),
                    all == (forall|k: int|
                        0 <= k < i ==> #[trigger] statuses@[k] == CheckStatus::Passed),
                    failed == (exists|k: int|
                        0 <= k < i && #[trigger] statuses@[k] == CheckStatus::Failed),
                decreases statuses.len() - i,
            {
                if statuses[i] != CheckStatus::Passed {
                    all = false;
                    assert(statuses@[i as int] != CheckStatus::Passed);
                }
                if statuses[i] == CheckStatus::Failed {
                    failed = true;
                    assert(statuses@[i as int] == CheckStatus::Failed);
                }
                i += 1;
            }
            if all {
                "passed"
            } else if failed {
                "failed"
            } else {
                "inconclusive"
            }
        },
    }
}

fn found_chain(g: &GoalFacts) -> (r: bool)
    ensures
        r == is_chain(*g),
{
    if g.attempts.len() != 1 || g.contributing_attempts > 1 || g.questions > 0 {
        return true;
    }
    let a = &g.attempts[0];
    let r = a.has_parent || !same(a.role.as_str(), "executor");
    assert(r ==> g.attempts@[0].has_parent || g.attempts@[0].role@ != "executor"@);
    r
}

fn counts_review(g: &GoalFacts, domain: bool) -> (r: bool)
    ensures
        r == review_counts(*g, domain),
{
    match (&g.annotation, &g.feedback) {
        (Some(a), Some(f)) => same_optional(&a.feedback_id, Some(f.id.as_str())) && same(
            a.annotation.delivery.as_str(),
            g.delivery.as_str(),
        ) && ((same(a.annotation.review.as_str(), "human") && same(
            a.annotation.origin.as_str(),
            "ordinary",
        )) || (domain && same(a.annotation.review.as_str(), "synthetic") && same(
            a.annotation.origin.as_str(),
            "synthetic",
        ))),
        _ => false,
    }
}

fn origin_text(g: &GoalFacts) -> (r: &str)
    ensures
        r@ == origin_of(*g),
{
    match &g.annotation {
        Some(a) => a.annotation.origin.as_str(),
        None => "unknown",
    }
}

fn push_when(keys: &mut Vec<String>, applies: bool, key: &str)
    ensures
        texts(final(keys)@) == texts(old(keys)@) + when(applies, key@),
{
    let ghost before = keys@;
    if applies {
        keys.push(key.to_owned());
        assert(texts(keys@) =~= texts(before) + seq![key@]);
    } else {
        assert(texts(keys@) =~= texts(before) + Seq::empty());
    }
}

fn differs(observed: &Option<String>, resolved: &Option<String>) -> (r: bool)
    ensures
        r == (observed is Some && optional_view(*observed) != optional_view(*resolved)),
{
    observed.is_some() && !same_optional(observed, as_slice_option(resolved))
}

fn find_exclusions(g: &GoalFacts, ctx: &ContextKey, domain: bool, operational: bool) -> (r: Vec<String>)
    requires
        operational == failed_operationally(g.attempts@),
    ensures
        texts(r@) == exclusions_of(*g, *ctx, domain),
{
    let origin = origin_text(g);
    let mut keys: Vec<String> = Vec::new();
    let mut name = "origin_".to_owned();
    name.push_str(origin);
    assert(texts(keys@) =~= Seq::empty());
    push_when(
        &mut keys,
        !((same(origin, "ordinary") && !domain) || (same(origin, "synthetic") && domain)),
        name.as_str(),
    );
    assert(Seq::<Seq<char>>::empty() + when(
        !((origin@ == "ordinary"@ && !domain) || (origin@ == "synthetic"@ && domain)),
        name@,
    ) =~= when(
        !((origin@ == "ordinary"@ && !domain) || (origin@ == "synthetic"@ && domain)),
        name@,
    ));
    let unfinished = g.attempts.len() == 0 || !g.attempts[0].completed || g.attempts[0].result.is_none();
    push_when(&mut keys, unfinished, "unfinished_execution");
    push_when(&mut keys, found_chain(g), "combined_or_continued_delivery");
    push_when(&mut keys, operational, "operational_failure");
    let foreign = match &g.decision {
        None => true,
        Some(d) => !same_context(&d.context, ctx),
    };
    push_when(&mut keys, foreign, "incompatible_or_unknown_task_check_context");
    push_when(&mut keys, ctx.mapping.is_none(), "no_explicit_routine_check_mapping");
    let incomplete = g.attempts.len() == 0 || g.attempts[0].harness_version.is_none()
        || g.attempts[0].resolved_model.is_none();
    push_when(&mut keys, incomplete, "incomplete_resource_attribution");
    let substituted = g.attempts.len() > 0 && (differs(
        &g.attempts[0].observed_model,
        &g.attempts[0].resolved_model,
    ) || differs(&g.attempts[0].observed_effort, &g.attempts[0].resolved_effort));
    push_when(&mut keys, substituted, "observed_substitution");
    keys
}

fn number_if(holds: bool) -> (r: u64)
    ensures
        r == one_if(holds),
{
    if holds {
        1
    } else {
        0
    }
}

/// The weight of a goal: no part of what it adds to counts is larger.
pub open spec fn count_weight(g: GoalFacts) -> nat {
    g.attempts@.len() + 8
}

proof fn share_is_within_weight(g: GoalFacts, ctx: ContextKey, domain: bool)
    ensures
        within(share_of(g, ctx, domain), count_weight(g)),
{
    reveal(share_of);
    let attempts = g.attempts@;
    launches_are_bounded(attempts, LaunchKnown::Launched);
    launches_are_bounded(attempts, LaunchKnown::Unknown);
    launches_are_bounded(attempts, LaunchKnown::NotLaunched);
    words_are_bounded(attempts);
}

proof fn launches_are_bounded(attempts: Seq<AttemptFacts>, kind: LaunchKnown)
    ensures
        launches(attempts, kind) <= attempts.len(),
    decreases attempts.len(),
{
    if attempts.len() > 0 {
        launches_are_bounded(attempts.drop_last(), kind);
    }
}

proof fn words_are_bounded(attempts: Seq<AttemptFacts>)
    ensures
        failure_words(attempts).len() <= attempts.len(),
        triggers(attempts).len() <= attempts.len(),
    decreases attempts.len(),
{
    if attempts.len() > 0 {
        words_are_bounded(attempts.drop_last());
    }
}

fn share_of_goal(g: &GoalFacts, ctx: &ContextKey, domain: bool) -> (r: GoalShare)
    ensures
        r.share() == share_of(*g, *ctx, domain),
{
    proof {
        reveal(share_of);
    }
    let attempts = &g.attempts;
    let mut launched: u64 = 0;
    let mut unknown: u64 = 0;
    let mut prelaunch: u64 = 0;
    let mut operational = false;
    let mut failures: Vec<String> = Vec::new();
    let mut recovery: Vec<String> = Vec::new();
    let mut i: usize = 0;
    assert(texts(failures@) =~= failure_words(attempts@.take(0)));
    assert(texts(recovery@) =~= triggers(attempts@.take(0)));
    while i < attempts.len()
        invariant
            i <= attempts.len(),
            launched == launches(attempts@.take(i as int), LaunchKnown::Launched),
            unknown == launches(attempts@.take(i as int), LaunchKnown::Unknown),
            prelaunch == launches(attempts@.take(i as int), LaunchKnown::NotLaunched),
            launched <= i,
            unknown <= i,
            prelaunch <= i,
            texts(failures@) == failure_words(attempts@.take(i as int)),
            texts(recovery@) == triggers(attempts@.take(i as int)),
            operational == (exists|k: int|
                0 <= k < i && (#[trigger] attempts@[k]).failure is Some && attempts@[k].failure
                    != Some(FailureKind::TargetVerification)),
        decreases attempts.len() - i,
    {
        let ghost before = attempts@.take(i as int);
        assert(attempts@.take(i as int + 1).drop_last() =~= before);
        assert(attempts@.take(i as int + 1).last() == attempts@[i as int]);
        let a = &attempts[i];
        match known_launch(a) {
            LaunchKnown::Launched => {
                launched += 1;
            },
            LaunchKnown::NotLaunched => {
                prelaunch += 1;
            },
            LaunchKnown::Unknown => {
                unknown += 1;
            },
        }
        if let Some(f) = a.failure {
            let ghost earlier = failures@;
            failures.push(f.word().to_owned());
            assert(texts(failures@) =~= texts(earlier).push(f.name()));
            if f != FailureKind::TargetVerification {
                operational = true;
                assert(attempts@[i as int].failure is Some);
            }
        }
        if i > 0 && !same(a.role.as_str(), "task") {
            let ghost earlier = recovery@;
            let word = if same_optional(&a.reason, Some("target_verification_failure")) {
                "target_verification_failure"
            } else {
                "clarification_or_other_continuation"
            };
            recovery.push(word.to_owned());
            assert(texts(recovery@) =~= texts(earlier).push(trigger_of(*a)));
        }
        i += 1;
    }
    assert(attempts@.take(attempts@.len() as int) =~= attempts@);
    if attempts.len() == 0 {
        prelaunch = 1;
    }
    let valid = counts_review(g, domain);
    let (accepted, rejected, quality) = match &g.feedback {
        Some(f) => {
            let yes = valid && same(f.outcome.as_str(), "accepted");
            let no = valid && !yes;
            (yes, no, no && quality_reason(&f.reasons))
        },
        None => (false, false, false),
    };
    let exclusions = find_exclusions(g, ctx, domain, operational);
    let mut first: Vec<String> = Vec::new();
    first.push(first_check_word(g).to_owned());
    assert(texts(first@) =~= seq![first_checks(*g)]);
    let mut verification: Vec<String> = Vec::new();
    verification.push(g.verification.word().to_owned());
    assert(texts(verification@) =~= seq![g.verification.name()]);
    let mut goal_failures: Vec<String> = Vec::new();
    if let Some(f) = g.failure {
        goal_failures.push(f.word().to_owned());
        assert(texts(goal_failures@) =~= seq![f.name()]);
    } else {
        assert(texts(goal_failures@) =~= Seq::empty());
    }
    let continuations = recovery.len() as u64;
    assert(texts(recovery@).len() == recovery@.len());
    assert(texts(exclusions@).len() == exclusions@.len());
    GoalShare {
        attempts: attempts.len() as u64,
        launched,
        launch_unknown: unknown,
        prelaunch,
        policy_chains: number_if(found_chain(g)),
        continuations,
        first_attempt_checks: first,
        recovery_triggers: recovery,
        eligible_executions: number_if(exclusions.len() == 0),
        reviewed: number_if(valid),
        accepted: number_if(accepted),
        rejected: number_if(rejected),
        quality_rejected: number_if(quality),
        accepted_verified: number_if(accepted && g.verification == VerificationState::Passed),
        accepted_unverified: number_if(accepted && g.verification != VerificationState::Passed),
        accepted_apply_blocked: number_if(
            accepted && g.application == ApplicationState::BlockedBySourceDrift,
        ),
        missing_review: number_if(!valid),
        deferred: number_if(g.review == ReviewState::Deferred),
        verification,
        failures,
        goal_failures,
        exclusions,
    }
}

/// The measured values that goals of one origin give.
pub ghost struct Values {
    pub harness_ms: Seq<u64>,
    pub verification_ms: Seq<u64>,
    pub end_to_end_ms: Seq<u64>,
    pub admission_wait_ms: Seq<u64>,
    pub repair_minutes: Seq<u64>,
    pub usage: Seq<(Seq<char>, u64)>,
}

/// No value.
pub open spec fn no_values() -> Values {
    Values {
        harness_ms: Seq::empty(),
        verification_ms: Seq::empty(),
        end_to_end_ms: Seq::empty(),
        admission_wait_ms: Seq::empty(),
        repair_minutes: Seq::empty(),
        usage: Seq::empty(),
    }
}

/// Two lists of values one after the other.
pub open spec fn followed_by(a: Values, b: Values) -> Values {
    Values {
        harness_ms: a.harness_ms + b.harness_ms,
        verification_ms: a.verification_ms + b.verification_ms,
        end_to_end_ms: a.end_to_end_ms + b.end_to_end_ms,
        admission_wait_ms: a.admission_wait_ms + b.admission_wait_ms,
        repair_minutes: a.repair_minutes + b.repair_minutes,
        usage: a.usage + b.usage,
    }
}

/// The values under one key, in order.
pub open spec fn under(usage: Seq<(Seq<char>, u64)>, key: Seq<char>) -> Seq<u64>
    decreases usage.len(),
{
    if usage.len() == 0 {
        Seq::empty()
    } else if usage.last().0 == key {
        under(usage.drop_last(), key).push(usage.last().1)
    } else {
        under(usage.drop_last(), key)
    }
}

/// Whether a map describes the values under each key, and holds no other key.
pub open spec fn usage_described(map: TextMap<Distribution>, usage: Seq<(Seq<char>, u64)>) -> bool {
    &&& map.in_order()
    &&& forall|key: Seq<char>|
        match #[trigger] map.at(key) {
            Some(d) => under(usage, key).len() > 0 && describes(d, under(usage, key)),
            None => under(usage, key).len() == 0,
        }
}

/// Whether the economics of an origin describe these values.
pub open spec fn measured(e: Economics, v: Values) -> bool {
    &&& describes(e.harness_ms, v.harness_ms)
    &&& describes(e.verification_ms, v.verification_ms)
    &&& describes(e.end_to_end_ms, v.end_to_end_ms)
    &&& describes(e.admission_wait_ms, v.admission_wait_ms)
    &&& describes(e.reported_repair_minutes, v.repair_minutes)
    &&& usage_described(e.usage, v.usage)
    &&& e.allowance_attribution@
        == "unknown_or_mixed_pool_activity; provider units are not interchangeable"@
    &&& e.cash_cost is None
}

/// The provider of an attempt, as far as it is known.
pub open spec fn provider_of(a: AttemptFacts) -> Seq<char> {
    or_unknown(a.provider)
}

/// The key for a usage category of an attempt.
pub open spec fn category_key(a: AttemptFacts, category: Seq<char>) -> Seq<char> {
    provider_of(a) + "/"@ + a.harness_id@ + "/terminal_category:"@ + category
}

/// The key for the tokens of an attempt.
pub open spec fn token_key(a: AttemptFacts, semantics: Option<String>) -> Seq<char> {
    provider_of(a) + "/"@ + a.harness_id@ + ":"@ + or_unknown(semantics)
}

/// The first `n` usage categories of an attempt under their keys.
pub open spec fn category_usage(a: AttemptFacts, n: int) -> Seq<(Seq<char>, u64)> {
    Seq::new(
        n as nat,
        |i: int| (category_key(a, a.usage_categories@[i].0@), a.usage_categories@[i].1),
    )
}

/// An optional value as a list.
pub open spec fn listed(value: Option<u64>) -> Seq<u64> {
    match value {
        Some(v) => seq![v],
        None => Seq::empty(),
    }
}

/// The measured values of one attempt. The checks of a planned goal are counted from its committed
/// events instead.
pub open spec fn attempt_values(a: AttemptFacts, planned: bool) -> Values {
    match a.result {
        None => Values { admission_wait_ms: listed(a.wait_ms), ..no_values() },
        Some(r) => Values {
            harness_ms: if launch_of(a) == LaunchKnown::Launched || r.duration_ms > 0 {
                seq![r.duration_ms]
            } else {
                Seq::empty()
            },
            verification_ms: if planned {
                Seq::empty()
            } else {
                r.check_ms@
            },
            end_to_end_ms: Seq::empty(),
            admission_wait_ms: listed(a.wait_ms),
            repair_minutes: Seq::empty(),
            usage: category_usage(a, a.usage_categories@.len() as int) + (match r.tokens {
                Some(tokens) => seq![(token_key(a, r.token_semantics), tokens)],
                None => Seq::empty(),
            }),
        },
    }
}

/// The measured values of attempts, in order.
pub open spec fn attempts_values(attempts: Seq<AttemptFacts>, planned: bool) -> Values
    decreases attempts.len(),
{
    if attempts.len() == 0 {
        no_values()
    } else {
        followed_by(
            attempts_values(attempts.drop_last(), planned),
            attempt_values(attempts.last(), planned),
        )
    }
}

/// The measured values of a goal.
#[verifier::opaque]
pub open spec fn goal_values(g: GoalFacts, domain: bool) -> Values {
    let attempts = attempts_values(g.attempts@, g.planned);
    Values {
        verification_ms: (if g.planned {
            g.committed_check_ms@
        } else {
            Seq::empty()
        }) + attempts.verification_ms,
        end_to_end_ms: listed(g.elapsed_ms),
        repair_minutes: match g.annotation {
            Some(a) => if review_counts(g, domain) {
                listed(a.annotation.repair_minutes)
            } else {
                Seq::empty()
            },
            None => Seq::empty(),
        },
        ..attempts
    }
}

/// How many values an attempt can give under one heading.
pub open spec fn attempt_weight(a: AttemptFacts) -> nat {
    a.usage_categories@.len() + 2 + (match a.result {
        Some(r) => r.check_ms@.len(),
        None => 0,
    })
}

/// How many values attempts can give under one heading.
pub open spec fn attempts_weight(attempts: Seq<AttemptFacts>) -> nat
    decreases attempts.len(),
{
    if attempts.len() == 0 {
        0
    } else {
        attempts_weight(attempts.drop_last()) + attempt_weight(attempts.last())
    }
}

/// How much a goal can add to any one number of a summary.
pub open spec fn weight(g: GoalFacts) -> nat {
    count_weight(g) + g.committed_check_ms@.len() + attempts_weight(g.attempts@) + 2
}

/// Whether no list of values is longer than `n`.
spec fn values_within(v: Values, n: nat) -> bool {
    &&& v.harness_ms.len() <= n
    &&& v.verification_ms.len() <= n
    &&& v.end_to_end_ms.len() <= n
    &&& v.admission_wait_ms.len() <= n
    &&& v.repair_minutes.len() <= n
    &&& v.usage.len() <= n
}

proof fn attempts_values_are_bounded(attempts: Seq<AttemptFacts>, planned: bool)
    ensures
        values_within(attempts_values(attempts, planned), attempts_weight(attempts)),
        attempts_values(attempts, planned).end_to_end_ms.len() == 0,
        attempts_values(attempts, planned).repair_minutes.len() == 0,
        planned ==> attempts_values(attempts, planned).verification_ms.len() == 0,
    decreases attempts.len(),
{
    if attempts.len() > 0 {
        attempts_values_are_bounded(attempts.drop_last(), planned);
    }
}

proof fn under_is_shorter(usage: Seq<(Seq<char>, u64)>, key: Seq<char>)
    ensures
        under(usage, key).len() <= usage.len(),
    decreases usage.len(),
{
    if usage.len() > 0 {
        under_is_shorter(usage.drop_last(), key);
    }
}

fn add_usage(map: &mut TextMap<Distribution>, key: &str, value: u64, Ghost(usage): Ghost<
    Seq<(Seq<char>, u64)>,
>)
    requires
        usage_described(*old(map), usage),
        usage.len() < u64::MAX,
    ensures
        usage_described(*final(map), usage.push((key@, value))),
{
    let ghost later = usage.push((key@, value));
    let ghost before = *map;
    proof {
        assert(later.drop_last() =~= usage);
        under_is_shorter(usage, key@);
        assert(match map.at(key@) {
            Some(d) => under(usage, key@).len() > 0 && describes(d, under(usage, key@)),
            None => under(usage, key@).len() == 0,
        });
    }
    let mut d = match map.get(key) {
        Some(d) => *d,
        None => Distribution::empty(),
    };
    assert(describes(d, under(usage, key@))) by {
        assert(under(usage, key@).len() == 0 ==> under(usage, key@) =~= Seq::empty());
    }
    d.add(value);
    map.insert(key.to_owned(), d);
    proof {
        assert forall|k: Seq<char>|
            match #[trigger] map.at(k) {
                Some(d) => under(later, k).len() > 0 && describes(d, under(later, k)),
                None => under(later, k).len() == 0,
            } by {
            if k != key@ {
                assert(map.at(k) == before.at(k));
                assert(under(later, k) == under(usage, k));
            }
        }
    }
}

fn add_all(d: &mut Distribution, values: &Vec<u64>, Ghost(so_far): Ghost<Seq<u64>>)
    requires
        describes(*old(d), so_far),
        so_far.len() + values@.len() <= u64::MAX,
    ensures
        describes(*final(d), so_far + values@),
{
    let mut i: usize = 0;
    assert(so_far + values@.take(0) =~= so_far);
    while i < values.len()
        invariant
            i <= values.len(),
            so_far.len() + values@.len() <= u64::MAX,
            describes(*d, so_far + values@.take(i as int)),
        decreases values.len() - i,
    {
        d.add(values[i]);
        assert((so_far + values@.take(i as int)).push(values@[i as int]) =~= so_far + values@.take(
            i as int + 1,
        ));
        i += 1;
    }
    assert(values@.take(values@.len() as int) =~= values@);
}

fn add_listed(d: &mut Distribution, value: Option<u64>, Ghost(so_far): Ghost<Seq<u64>>)
    requires
        describes(*old(d), so_far),
        so_far.len() < u64::MAX,
    ensures
        describes(*final(d), so_far + listed(value)),
{
    if let Some(v) = value {
        d.add(v);
        assert(so_far.push(v) =~= so_far + seq![v]);
    } else {
        assert(so_far + Seq::<u64>::empty() =~= so_far);
    }
}

fn add_attempt(e: &mut Economics, a: &AttemptFacts, planned: bool, Ghost(so_far): Ghost<Values>, Ghost(
    n,
): Ghost<nat>)
    requires
        measured(*old(e), so_far),
        values_within(so_far, n),
        n + attempt_weight(*a) <= u64::MAX,
    ensures
        measured(*final(e), followed_by(so_far, attempt_values(*a, planned))),
{
    add_listed(&mut e.admission_wait_ms, a.wait_ms, Ghost(so_far.admission_wait_ms));
    proof {
        assert(so_far.harness_ms + Seq::<u64>::empty() =~= so_far.harness_ms);
        assert(so_far.verification_ms + Seq::<u64>::empty() =~= so_far.verification_ms);
        assert(so_far.end_to_end_ms + Seq::<u64>::empty() =~= so_far.end_to_end_ms);
        assert(so_far.repair_minutes + Seq::<u64>::empty() =~= so_far.repair_minutes);
        assert(so_far.usage + Seq::<(Seq<char>, u64)>::empty() =~= so_far.usage);
    }
    if let Some(r) = &a.result {
        let launched = match known_launch(a) {
            LaunchKnown::Launched => true,
            _ => false,
        };
        if launched || r.duration_ms > 0 {
            e.harness_ms.add(r.duration_ms);
            assert(so_far.harness_ms.push(r.duration_ms) =~= so_far.harness_ms + seq![r.duration_ms]);
        }
        if !planned {
            add_all(&mut e.verification_ms, &r.check_ms, Ghost(so_far.verification_ms));
        }
        let mut i: usize = 0;
        assert(so_far.usage + category_usage(*a, 0) =~= so_far.usage);
        let ghost whole = *e;
        while i < a.usage_categories.len()
            invariant
                i <= a.usage_categories.len(),
                values_within(so_far, n),
                n + attempt_weight(*a) <= u64::MAX,
                *e == (Economics { usage: e.usage, ..whole }),
                usage_described(e.usage, so_far.usage + category_usage(*a, i as int)),
            decreases a.usage_categories.len() - i,
        {
            let mut key = text_or_unknown(&a.provider).to_owned();
            key.push_str("/");
            key.push_str(a.harness_id.as_str());
            key.push_str("/terminal_category:");
            key.push_str(a.usage_categories[i].0.as_str());
            assert(key@ == category_key(*a, a.usage_categories@[i as int].0@));
            let ghost known = so_far.usage + category_usage(*a, i as int);
            add_usage(&mut e.usage, key.as_str(), a.usage_categories[i].1, Ghost(known));
            assert(known.push((key@, a.usage_categories@[i as int].1)) =~= so_far.usage
                + category_usage(*a, i as int + 1));
            i += 1;
        }
        let ghost known = so_far.usage + category_usage(*a, a.usage_categories@.len() as int);
        if let Some(tokens) = r.tokens {
            let mut key = text_or_unknown(&a.provider).to_owned();
            key.push_str("/");
            key.push_str(a.harness_id.as_str());
            key.push_str(":");
            key.push_str(text_or_unknown(&r.token_semantics));
            assert(key@ == token_key(*a, r.token_semantics));
            add_usage(&mut e.usage, key.as_str(), tokens, Ghost(known));
            assert(known.push((key@, tokens)) =~= so_far.usage + (category_usage(
                *a,
                a.usage_categories@.len() as int,
            ) + seq![(key@, tokens)]));
        } else {
            assert(known =~= so_far.usage + (category_usage(*a, a.usage_categories@.len() as int)
                + Seq::empty()));
        }
    }
}

fn add_goal(e: &mut Economics, g: &GoalFacts, domain: bool, Ghost(so_far): Ghost<Values>, Ghost(n): Ghost<
    nat,
>)
    requires
        measured(*old(e), so_far),
        values_within(so_far, n),
        n + weight(*g) <= u64::MAX,
    ensures
        measured(*final(e), followed_by(so_far, goal_values(*g, domain))),
        values_within(followed_by(so_far, goal_values(*g, domain)), n + weight(*g)),
{
    let ghost all = attempts_values(g.attempts@, g.planned);
    proof {
        reveal(goal_values);
        attempts_values_are_bounded(g.attempts@, g.planned);
    }
    let ghost first = Values {
        verification_ms: so_far.verification_ms + (if g.planned {
            g.committed_check_ms@
        } else {
            Seq::empty()
        }),
        ..so_far
    };
    if g.planned {
        add_all(&mut e.verification_ms, &g.committed_check_ms, Ghost(so_far.verification_ms));
    } else {
        assert(so_far.verification_ms + Seq::<u64>::empty() =~= so_far.verification_ms);
    }
    let ghost m = n + g.committed_check_ms@.len();
    let mut i: usize = 0;
    assert(followed_by(first, attempts_values(g.attempts@.take(0), g.planned)) =~= first) by {
        assert(first.harness_ms + Seq::<u64>::empty() =~= first.harness_ms);
        assert(first.verification_ms + Seq::<u64>::empty() =~= first.verification_ms);
        assert(first.end_to_end_ms + Seq::<u64>::empty() =~= first.end_to_end_ms);
        assert(first.admission_wait_ms + Seq::<u64>::empty() =~= first.admission_wait_ms);
        assert(first.repair_minutes + Seq::<u64>::empty() =~= first.repair_minutes);
        assert(first.usage + Seq::<(Seq<char>, u64)>::empty() =~= first.usage);
    }
    while i < g.attempts.len()
        invariant
            i <= g.attempts.len(),
            values_within(first, m),
            m + attempts_weight(g.attempts@) <= u64::MAX,
            measured(*e, followed_by(first, attempts_values(g.attempts@.take(i as int), g.planned))),
        decreases g.attempts.len() - i,
    {
        let ghost part = attempts_values(g.attempts@.take(i as int), g.planned);
        let ghost next = attempt_values(g.attempts@[i as int], g.planned);
        proof {
            assert(g.attempts@.take(i as int + 1).drop_last() =~= g.attempts@.take(i as int));
            attempts_values_are_bounded(g.attempts@.take(i as int), g.planned);
            prefix_weighs_less(g.attempts@, i as int + 1);
        }
        add_attempt(
            e,
            &g.attempts[i],
            g.planned,
            Ghost(followed_by(first, part)),
            Ghost(m + attempts_weight(g.attempts@.take(i as int))),
        );
        proof {
            following_is_associative(first, part, next);
        }
        i += 1;
    }
    assert(g.attempts@.take(g.attempts@.len() as int) =~= g.attempts@);
    let ghost done = followed_by(first, all);
    add_listed(&mut e.end_to_end_ms, g.elapsed_ms, Ghost(done.end_to_end_ms));
    let minutes = match &g.annotation {
        Some(a) => if counts_review(g, domain) {
            a.annotation.repair_minutes
        } else {
            None
        },
        None => None,
    };
    add_listed(&mut e.reported_repair_minutes, minutes, Ghost(done.repair_minutes));
    proof {
        let last = followed_by(so_far, goal_values(*g, domain));
        assert(all.end_to_end_ms =~= Seq::<u64>::empty());
        assert(all.repair_minutes =~= Seq::<u64>::empty());
        assert(last.harness_ms =~= done.harness_ms);
        assert(last.verification_ms =~= done.verification_ms);
        assert(last.admission_wait_ms =~= done.admission_wait_ms);
        assert(last.usage =~= done.usage);
        assert(last.end_to_end_ms =~= done.end_to_end_ms + listed(g.elapsed_ms));
        assert(last.repair_minutes =~= done.repair_minutes + listed(minutes));
    }
}

proof fn prefix_weighs_less(attempts: Seq<AttemptFacts>, i: int)
    requires
        0 <= i <= attempts.len(),
    ensures
        attempts_weight(attempts.take(i)) <= attempts_weight(attempts),
    decreases attempts.len() - i,
{
    if i < attempts.len() {
        prefix_weighs_less(attempts, i + 1);
        assert(attempts.take(i + 1).drop_last() =~= attempts.take(i));
    } else {
        assert(attempts.take(i) =~= attempts);
    }
}

proof fn following_is_associative(a: Values, b: Values, c: Values)
    ensures
        followed_by(followed_by(a, b), c) == followed_by(a, followed_by(b, c)),
{
    assert((a.harness_ms + b.harness_ms) + c.harness_ms =~= a.harness_ms + (b.harness_ms
        + c.harness_ms));
    assert((a.verification_ms + b.verification_ms) + c.verification_ms =~= a.verification_ms + (
    b.verification_ms + c.verification_ms));
    assert((a.end_to_end_ms + b.end_to_end_ms) + c.end_to_end_ms =~= a.end_to_end_ms + (
    b.end_to_end_ms + c.end_to_end_ms));
    assert((a.admission_wait_ms + b.admission_wait_ms) + c.admission_wait_ms =~= a.admission_wait_ms
        + (b.admission_wait_ms + c.admission_wait_ms));
    assert((a.repair_minutes + b.repair_minutes) + c.repair_minutes =~= a.repair_minutes + (
    b.repair_minutes + c.repair_minutes));
    assert((a.usage + b.usage) + c.usage =~= a.usage + (b.usage + c.usage));
}

/// What a row without a goal adds: one exclusion.
pub open spec fn missing_share() -> Share {
    Share { exclusions: seq!["missing_projection"@], ..nothing() }
}

/// What the rows add together.
pub open spec fn total_share(rows: Seq<Option<GoalFacts>>, ctx: ContextKey, domain: bool) -> Share
    decreases rows.len(),
{
    if rows.len() == 0 {
        nothing()
    } else {
        together(
            total_share(rows.drop_last(), ctx, domain),
            match rows.last() {
                Some(g) => share_of(g, ctx, domain),
                None => missing_share(),
            },
        )
    }
}

/// What there is, or what nothing adds.
pub open spec fn share_or_nothing(s: Option<Share>) -> Share {
    match s {
        Some(share) => share,
        None => nothing(),
    }
}

/// What the goals of one origin add together, if there is one.
pub open spec fn origin_share(
    rows: Seq<Option<GoalFacts>>,
    ctx: ContextKey,
    domain: bool,
    origin: Seq<char>,
) -> Option<Share>
    decreases rows.len(),
{
    if rows.len() == 0 {
        None
    } else {
        let earlier = origin_share(rows.drop_last(), ctx, domain, origin);
        match rows.last() {
            Some(g) => if origin_of(g) == origin {
                Some(together(share_or_nothing(earlier), share_of(g, ctx, domain)))
            } else {
                earlier
            },
            None => earlier,
        }
    }
}

/// What the goals of one cohort add together, if there is one.
pub open spec fn cohort_share(
    rows: Seq<Option<GoalFacts>>,
    ctx: ContextKey,
    domain: bool,
    cohort: Seq<char>,
) -> Option<Share>
    decreases rows.len(),
{
    if rows.len() == 0 {
        None
    } else {
        let earlier = cohort_share(rows.drop_last(), ctx, domain, cohort);
        match rows.last() {
            Some(g) => if cohort_of(g, ctx, domain) == Some(cohort) {
                Some(together(share_or_nothing(earlier), share_of(g, ctx, domain)))
            } else {
                earlier
            },
            None => earlier,
        }
    }
}

/// The measured values of the goals of one origin, if there is one.
pub open spec fn origin_values(rows: Seq<Option<GoalFacts>>, domain: bool, origin: Seq<char>) -> Option<
    Values,
>
    decreases rows.len(),
{
    if rows.len() == 0 {
        None
    } else {
        let earlier = origin_values(rows.drop_last(), domain, origin);
        match rows.last() {
            Some(g) => if origin_of(g) == origin {
                Some(
                    followed_by(
                        match earlier {
                            Some(v) => v,
                            None => no_values(),
                        },
                        goal_values(g, domain),
                    ),
                )
            } else {
                earlier
            },
            None => earlier,
        }
    }
}

/// How a goal was submitted.
pub open spec fn submission_of(g: GoalFacts) -> Seq<char> {
    if g.machine {
        "scoped_machine"@
    } else {
        "local_or_unknown"@
    }
}

/// The keys that the goals are counted under as a whole: submission, execution context and origin
/// of the review.
pub ghost struct WindowKeys {
    pub submissions: Seq<Seq<char>>,
    pub contexts: Seq<Seq<char>>,
    pub reviews: Seq<Seq<char>>,
}

/// The keys of the goals in the rows, in order.
pub open spec fn window_keys(rows: Seq<Option<GoalFacts>>) -> WindowKeys
    decreases rows.len(),
{
    if rows.len() == 0 {
        WindowKeys { submissions: Seq::empty(), contexts: Seq::empty(), reviews: Seq::empty() }
    } else {
        let earlier = window_keys(rows.drop_last());
        match rows.last() {
            Some(g) => WindowKeys {
                submissions: earlier.submissions.push(submission_of(g)),
                contexts: earlier.contexts.push(g.mode@ + ":"@ + g.backend@),
                reviews: earlier.reviews.push(review_origin_of(g)),
            },
            None => earlier,
        }
    }
}

/// What a reference holds.
pub ghost struct ReferenceView {
    pub run_id: Seq<char>,
    pub cohort: Seq<char>,
    pub feedback_id: Seq<char>,
    pub annotation_sequence: u64,
    pub delivery: Seq<char>,
    pub facts: Seq<char>,
}

impl View for Reference {
    type V = ReferenceView;

    open spec fn view(&self) -> ReferenceView {
        ReferenceView {
            run_id: self.run_id@,
            cohort: self.cohort@,
            feedback_id: self.feedback_id@,
            annotation_sequence: self.annotation_sequence,
            delivery: self.delivery@,
            facts: self.facts@,
        }
    }
}

/// What the references in a list hold.
pub open spec fn reference_views(v: Seq<Reference>) -> Seq<ReferenceView> {
    Seq::new(v.len(), |i: int| v[i]@)
}

/// The reference to a goal in a cohort.
pub open spec fn reference_to(g: GoalFacts, cohort: Seq<char>) -> ReferenceView {
    ReferenceView {
        run_id: g.run_id@,
        cohort,
        feedback_id: match g.feedback {
            Some(f) => f.id@,
            None => ""@,
        },
        annotation_sequence: match g.annotation {
            Some(a) => a.sequence,
            None => 0,
        },
        delivery: g.delivery@,
        facts: g.facts@,
    }
}

/// The references to the goals that are in a cohort, in order.
pub open spec fn references_to(rows: Seq<Option<GoalFacts>>, ctx: ContextKey, domain: bool) -> Seq<
    ReferenceView,
>
    decreases rows.len(),
{
    if rows.len() == 0 {
        Seq::empty()
    } else {
        let earlier = references_to(rows.drop_last(), ctx, domain);
        match rows.last() {
            Some(g) => match cohort_of(g, ctx, domain) {
                Some(cohort) => earlier.push(reference_to(g, cohort)),
                None => earlier,
            },
            None => earlier,
        }
    }
}

/// How much the rows can add to any one number of a summary.
pub open spec fn window_weight(rows: Seq<Option<GoalFacts>>) -> nat
    decreases rows.len(),
{
    if rows.len() == 0 {
        0
    } else {
        window_weight(rows.drop_last()) + (match rows.last() {
            Some(g) => weight(g),
            None => 1,
        })
    }
}

/// Harness time per accepted goal, where every launch is known and measured.
pub open spec fn per_accepted(s: Share, d: Distribution) -> Option<u64> {
    if s.accepted > 0 && d.count == s.launched && s.launch_unknown == 0 {
        Some((d.total as int / s.accepted as int) as u64)
    } else {
        None
    }
}

/// Whether counts are there exactly where a share is, and hold it.
pub open spec fn entry_counts(c: Option<Counts>, s: Option<Share>) -> bool {
    match (c, s) {
        (Some(counts), Some(share)) => counted(counts, share),
        (None, None) => true,
        _ => false,
    }
}

/// Whether economics are there exactly where values are, and describe them.
pub open spec fn entry_measures(e: Option<Economics>, v: Option<Values>, s: Option<Share>) -> bool {
    match (e, v, s) {
        (Some(economics), Some(values), Some(share)) => measured(economics, values)
            && economics.harness_ms_per_accepted == per_accepted(share, economics.harness_ms),
        (None, None, None) => true,
        _ => false,
    }
}

/// Whether a summary says what the rows of its window say.
pub open spec fn summarizes(
    out: Summary,
    rows: Seq<Option<GoalFacts>>,
    ctx: ContextKey,
    domain: bool,
) -> bool {
    let window = if rows.len() > MAX_GOALS {
        rows.take(MAX_GOALS as int)
    } else {
        rows
    };
    &&& out.truncated == (rows.len() > MAX_GOALS)
    &&& same_key(out.context, ctx)
    &&& counted(out.counts, total_share(window, ctx, domain))
    &&& out.origins.in_order()
    &&& forall|o: Seq<char>|
        entry_counts(#[trigger] out.origins.at(o), origin_share(window, ctx, domain, o))
    &&& out.resources.in_order()
    &&& forall|k: Seq<char>|
        entry_counts(#[trigger] out.resources.at(k), cohort_share(window, ctx, domain, k))
    &&& out.economics.in_order()
    &&& forall|o: Seq<char>|
        entry_measures(
            #[trigger] out.economics.at(o),
            origin_values(window, domain, o),
            origin_share(window, ctx, domain, o),
        )
    &&& tallies(out.submissions, window_keys(window).submissions)
    &&& tallies(out.execution_contexts, window_keys(window).contexts)
    &&& tallies(out.review_provenance, window_keys(window).reviews)
    &&& reference_views(out.references@) == references_to(window, ctx, domain)
}

spec fn share_fits(s: Option<Share>, n: nat) -> bool {
    match s {
        Some(share) => within(share, n),
        None => true,
    }
}

spec fn values_fit(v: Option<Values>, n: nat) -> bool {
    match v {
        Some(values) => values_within(values, n),
        None => true,
    }
}

proof fn together_fits(a: Share, b: Share, n: nat, m: nat, k: nat)
    requires
        within(a, n),
        within(b, m),
        n + m <= k,
    ensures
        within(together(a, b), k),
{
}

proof fn total_fits(rows: Seq<Option<GoalFacts>>, ctx: ContextKey, domain: bool)
    ensures
        within(total_share(rows, ctx, domain), window_weight(rows)),
    decreases rows.len(),
{
    if rows.len() > 0 {
        let before = rows.drop_last();
        total_fits(before, ctx, domain);
        let (s, m) = match rows.last() {
            Some(g) => (share_of(g, ctx, domain), weight(g)),
            None => (missing_share(), 1nat),
        };
        if let Some(g) = rows.last() {
            share_is_within_weight(g, ctx, domain);
        }
        together_fits(
            total_share(before, ctx, domain),
            s,
            window_weight(before),
            m,
            window_weight(rows),
        );
    }
}

proof fn origin_fits(rows: Seq<Option<GoalFacts>>, ctx: ContextKey, domain: bool, o: Seq<char>)
    ensures
        share_fits(origin_share(rows, ctx, domain, o), window_weight(rows)),
    decreases rows.len(),
{
    if rows.len() > 0 {
        let before = rows.drop_last();
        origin_fits(before, ctx, domain, o);
        if let Some(g) = rows.last() {
            share_is_within_weight(g, ctx, domain);
            together_fits(
                share_or_nothing(origin_share(before, ctx, domain, o)),
                share_of(g, ctx, domain),
                window_weight(before),
                weight(g),
                window_weight(rows),
            );
        }
    }
}

proof fn cohort_fits(rows: Seq<Option<GoalFacts>>, ctx: ContextKey, domain: bool, k: Seq<char>)
    ensures
        share_fits(cohort_share(rows, ctx, domain, k), window_weight(rows)),
    decreases rows.len(),
{
    if rows.len() > 0 {
        let before = rows.drop_last();
        cohort_fits(before, ctx, domain, k);
        if let Some(g) = rows.last() {
            share_is_within_weight(g, ctx, domain);
            together_fits(
                share_or_nothing(cohort_share(before, ctx, domain, k)),
                share_of(g, ctx, domain),
                window_weight(before),
                weight(g),
                window_weight(rows),
            );
        }
    }
}

proof fn goal_values_fit(g: GoalFacts, domain: bool)
    ensures
        values_within(goal_values(g, domain), weight(g)),
{
    reveal(goal_values);
    attempts_values_are_bounded(g.attempts@, g.planned);
}

proof fn origin_values_fit(rows: Seq<Option<GoalFacts>>, domain: bool, o: Seq<char>)
    ensures
        values_fit(origin_values(rows, domain, o), window_weight(rows)),
    decreases rows.len(),
{
    if rows.len() > 0 {
        origin_values_fit(rows.drop_last(), domain, o);
        if let Some(g) = rows.last() {
            goal_values_fit(g, domain);
        }
    }
}

proof fn window_keys_fit(rows: Seq<Option<GoalFacts>>)
    ensures
        window_keys(rows).submissions.len() <= window_weight(rows),
        window_keys(rows).contexts.len() <= window_weight(rows),
        window_keys(rows).reviews.len() <= window_weight(rows),
    decreases rows.len(),
{
    if rows.len() > 0 {
        window_keys_fit(rows.drop_last());
    }
}

fn add_to(
    map: &mut TextMap<Counts>,
    key: &str,
    s: &GoalShare,
    Ghost(shares): Ghost<spec_fn(Seq<char>) -> Option<Share>>,
    Ghost(n): Ghost<nat>,
    Ghost(m): Ghost<nat>,
) -> (r: (u64, u64, u64))
    requires
        old(map).in_order(),
        forall|k: Seq<char>| entry_counts(#[trigger] old(map).at(k), shares(k)),
        shares(key@) matches Some(x) ==> within(x, n),
        within(s.share(), m),
        n + m <= u64::MAX,
    ensures
        final(map).in_order(),
        forall|k: Seq<char>|
            entry_counts(
                #[trigger] final(map).at(k),
                if k == key@ {
                    Some(together(share_or_nothing(shares(k)), s.share()))
                } else {
                    shares(k)
                },
            ),
        ({
            let after = together(share_or_nothing(shares(key@)), s.share());
            r.0 == after.accepted && r.1 == after.launched && r.2 == after.launch_unknown
        }),
{
    let ghost before = *map;
    assert(entry_counts(map.at(key@), shares(key@)));
    let mut c = match map.remove(key) {
        Some(c) => c,
        None => Counts::empty(),
    };
    let ghost so_far = share_or_nothing(shares(key@));
    assert(counted(c, so_far));
    add_share(&mut c, s, Ghost(so_far), Ghost(n), Ghost(m));
    let numbers = (c.accepted, c.launched, c.launch_unknown);
    let ghost middle = *map;
    map.insert(key.to_owned(), c);
    proof {
        assert forall|k: Seq<char>|
            entry_counts(
                #[trigger] map.at(k),
                if k == key@ {
                    Some(together(share_or_nothing(shares(k)), s.share()))
                } else {
                    shares(k)
                },
            ) by {
            if k != key@ {
                assert(map.at(k) == middle.at(k));
                assert(middle.at(k) == before.at(k));
                assert(entry_counts(before.at(k), shares(k)));
            }
        }
    }
    numbers
}

fn measure(
    map: &mut TextMap<Economics>,
    g: &GoalFacts,
    domain: bool,
    numbers: (u64, u64, u64),
    Ghost(values): Ghost<spec_fn(Seq<char>) -> Option<Values>>,
    Ghost(shares): Ghost<spec_fn(Seq<char>) -> Option<Share>>,
    Ghost(after): Ghost<Share>,
    Ghost(n): Ghost<nat>,
)
    requires
        old(map).in_order(),
        forall|o: Seq<char>| entry_measures(#[trigger] old(map).at(o), values(o), shares(o)),
        values(origin_of(*g)) matches Some(v) ==> values_within(v, n),
        n + weight(*g) <= u64::MAX,
        numbers.0 == after.accepted,
        numbers.1 == after.launched,
        numbers.2 == after.launch_unknown,
    ensures
        final(map).in_order(),
        forall|o: Seq<char>|
            entry_measures(
                #[trigger] final(map).at(o),
                if o == origin_of(*g) {
                    Some(
                        followed_by(
                            match values(o) {
                                Some(v) => v,
                                None => no_values(),
                            },
                            goal_values(*g, domain),
                        ),
                    )
                } else {
                    values(o)
                },
                if o == origin_of(*g) {
                    Some(after)
                } else {
                    shares(o)
                },
            ),
{
    let origin = origin_text(g);
    let ghost before = *map;
    assert(entry_measures(map.at(origin@), values(origin@), shares(origin@)));
    let mut e = match map.remove(origin) {
        Some(e) => e,
        None => Economics {
            harness_ms: Distribution::empty(),
            verification_ms: Distribution::empty(),
            end_to_end_ms: Distribution::empty(),
            admission_wait_ms: Distribution::empty(),
            reported_repair_minutes: Distribution::empty(),
            usage: TextMap::new(),
            allowance_attribution: "unknown_or_mixed_pool_activity; provider units are not interchangeable".to_owned(),
            cash_cost: None,
            harness_ms_per_accepted: None,
        },
    };
    let ghost so_far = match values(origin@) {
        Some(v) => v,
        None => no_values(),
    };
    assert(measured(e, so_far));
    add_goal(&mut e, g, domain, Ghost(so_far), Ghost(n));
    e.harness_ms_per_accepted = if numbers.0 > 0 && e.harness_ms.count == numbers.1 && numbers.2 == 0 {
        Some(e.harness_ms.total / numbers.0)
    } else {
        None
    };
    let ghost middle = *map;
    map.insert(origin.to_owned(), e);
    proof {
        assert forall|o: Seq<char>|
            entry_measures(
                #[trigger] map.at(o),
                if o == origin@ {
                    Some(followed_by(match values(o) {
                        Some(v) => v,
                        None => no_values(),
                    }, goal_values(*g, domain)))
                } else {
                    values(o)
                },
                if o == origin@ {
                    Some(after)
                } else {
                    shares(o)
                },
            ) by {
            if o != origin@ {
                assert(map.at(o) == middle.at(o));
                assert(middle.at(o) == before.at(o));
                assert(entry_measures(before.at(o), values(o), shares(o)));
            }
        }
    }
}

fn cohort_text(g: &GoalFacts) -> (r: String)
    requires
        g.decision is Some,
        g.attempts@.len() > 0,
        g.attempts@[0].harness_version is Some,
    ensures
        r@ == ({
            let a = g.attempts@[0];
            g.decision->0.selected_behavior@ + "|"@ + a.harness_version->0@ + "|"@ + or_unknown(
                a.observed_model,
            ) + "|"@ + or_unknown(a.observed_effort) + "|"@ + g.decision->0.policy_version@
        }),
{
    let a = &g.attempts[0];
    match (&g.decision, &a.harness_version) {
        (Some(d), Some(version)) => {
            let mut out = d.selected_behavior.clone();
            out.push_str("|");
            out.push_str(version.as_str());
            out.push_str("|");
            out.push_str(text_or_unknown(&a.observed_model));
            out.push_str("|");
            out.push_str(text_or_unknown(&a.observed_effort));
            out.push_str("|");
            out.push_str(d.policy_version.as_str());
            out
        },
        _ => String::new(),
    }
}

impl ContextKey {
    /// An exact copy.
    pub fn copied(&self) -> (r: Self)
        ensures
            r == *self,
    {
        ContextKey {
            source_key: self.source_key.clone(),
            features: self.features.copied(),
            verification: self.verification.clone(),
            mapping: copy_optional(&self.mapping),
            base_policy: self.base_policy.clone(),
        }
    }
}

proof fn window_weighs_less(rows: Seq<Option<GoalFacts>>, i: int)
    requires
        0 <= i <= rows.len(),
    ensures
        window_weight(rows.take(i)) <= window_weight(rows),
    decreases rows.len() - i,
{
    if i < rows.len() {
        window_weighs_less(rows, i + 1);
        assert(rows.take(i + 1).drop_last() =~= rows.take(i));
    } else {
        assert(rows.take(i) =~= rows);
    }
}

/// Summarizes the goals of one source up to `cutoff`. `rows` lists them latest first, a missing
/// projection as nothing; `domain` says whether the store is a synthetic fixture. The hash of the
/// summary is left empty until it is sealed.
#[verifier::rlimit(60)]
#[verifier::spinoff_prover]
pub fn summarize(
    rows: &Vec<Option<GoalFacts>>,
    ctx: &ContextKey,
    domain: bool,
    cutoff: i64,
    annotation_revision: u64,
) -> (out: Summary)
    requires
        cutoff >= i64::MIN + WINDOW_MICROS,
        window_weight(rows@) <= u64::MAX,
    ensures
        summarizes(out, rows@, *ctx, domain),
        out.version == 1,
        out.cutoff == cutoff,
        out.since == cutoff - WINDOW_MICROS,
        out.annotation_revision == annotation_revision,
        out.snapshot_hash@.len() == 0,
        texts(out.limitations@) == limitations(),
{
    let mut counts = Counts::empty();
    let mut origins: TextMap<Counts> = TextMap::new();
    let mut submissions: TextMap<u64> = TextMap::new();
    let mut review_provenance: TextMap<u64> = TextMap::new();
    let mut execution_contexts: TextMap<u64> = TextMap::new();
    let mut resources: TextMap<Counts> = TextMap::new();
    let mut economics: TextMap<Economics> = TextMap::new();
    let mut references: Vec<Reference> = Vec::new();
    let truncated = rows.len() > MAX_GOALS;
    let end = if truncated {
        MAX_GOALS
    } else {
        rows.len()
    };
    let ghost all = rows@;
    let mut i: usize = 0;
    assert(reference_views(references@) =~= references_to(all.take(0), *ctx, domain));
    while i < end
        invariant
            i <= end <= rows.len(),
            all == rows@,
            window_weight(all) <= u64::MAX,
            counted(counts, total_share(all.take(i as int), *ctx, domain)),
            origins.in_order(),
            forall|o: Seq<char>|
                entry_counts(
                    #[trigger] origins.at(o),
                    origin_share(all.take(i as int), *ctx, domain, o),
                ),
            resources.in_order(),
            forall|k: Seq<char>|
                entry_counts(
                    #[trigger] resources.at(k),
                    cohort_share(all.take(i as int), *ctx, domain, k),
                ),
            economics.in_order(),
            forall|o: Seq<char>|
                entry_measures(
                    #[trigger] economics.at(o),
                    origin_values(all.take(i as int), domain, o),
                    origin_share(all.take(i as int), *ctx, domain, o),
                ),
            tallies(submissions, window_keys(all.take(i as int)).submissions),
            tallies(execution_contexts, window_keys(all.take(i as int)).contexts),
            tallies(review_provenance, window_keys(all.take(i as int)).reviews),
            reference_views(references@) == references_to(all.take(i as int), *ctx, domain),
        decreases end - i,
    {
        let ghost before = all.take(i as int);
        let ghost after = all.take(i as int + 1);
        let ghost n = window_weight(before);
        proof {
            assert(after.drop_last() =~= before);
            assert(after.last() == all[i as int]);
            total_fits(before, *ctx, domain);
            window_keys_fit(before);
            window_weighs_less(all, i as int + 1);
        }
        match &rows[i] {
            None => {
                let ghost so_far = total_share(before, *ctx, domain);
                bump(&mut counts.exclusions, "missing_projection", Ghost(so_far.exclusions));
                proof {
                    let next = together(so_far, missing_share());
                    assert(next.exclusions =~= so_far.exclusions.push("missing_projection"@));
                    assert(next.first_attempt_checks =~= so_far.first_attempt_checks);
                    assert(next.recovery_triggers =~= so_far.recovery_triggers);
                    assert(next.verification =~= so_far.verification);
                    assert(next.failures =~= so_far.failures);
                    assert(next.goal_failures =~= so_far.goal_failures);
                    assert(counted(counts, next));
                    assert forall|o: Seq<char>|
                        entry_counts(#[trigger] origins.at(o), origin_share(after, *ctx, domain, o)) by {
                        assert(entry_counts(origins.at(o), origin_share(before, *ctx, domain, o)));
                    }
                    assert forall|k: Seq<char>|
                        entry_counts(#[trigger] resources.at(k), cohort_share(after, *ctx, domain, k)) by {
                        assert(entry_counts(resources.at(k), cohort_share(before, *ctx, domain, k)));
                    }
                    assert forall|o: Seq<char>|
                        entry_measures(
                            #[trigger] economics.at(o),
                            origin_values(after, domain, o),
                            origin_share(after, *ctx, domain, o),
                        ) by {
                        assert(entry_measures(
                            economics.at(o),
                            origin_values(before, domain, o),
                            origin_share(before, *ctx, domain, o),
                        ));
                    }
                }
            },
            Some(g) => {
                let keys_before = Ghost(window_keys(before));
                bump(
                    &mut submissions,
                    if g.machine {
                        "scoped_machine"
                    } else {
                        "local_or_unknown"
                    },
                    Ghost(keys_before@.submissions),
                );
                let mut mode = g.mode.clone();
                mode.push_str(":");
                mode.push_str(g.backend.as_str());
                bump(&mut execution_contexts, mode.as_str(), Ghost(keys_before@.contexts));
                let review = match &g.annotation {
                    Some(a) => a.annotation.review.as_str(),
                    None => "unknown",
                };
                bump(&mut review_provenance, review, Ghost(keys_before@.reviews));
                let share = share_of_goal(g, ctx, domain);
                proof {
                    share_is_within_weight(*g, *ctx, domain);
                    origin_fits(before, *ctx, domain, origin_of(*g));
                    origin_values_fit(before, domain, origin_of(*g));
                }
                let ghost so_far = total_share(before, *ctx, domain);
                add_share(&mut counts, &share, Ghost(so_far), Ghost(n), Ghost(count_weight(*g)));
                let ghost by_origin = |o: Seq<char>| origin_share(before, *ctx, domain, o);
                let ghost old_origins = origins;
                proof {
                    assert forall|k: Seq<char>| entry_counts(#[trigger] origins.at(k), by_origin(k)) by {}
                }
                let numbers = add_to(
                    &mut origins,
                    origin_text(g),
                    &share,
                    Ghost(by_origin),
                    Ghost(n),
                    Ghost(count_weight(*g)),
                );
                let ghost by_values = |o: Seq<char>| origin_values(before, domain, o);
                let ghost whole = together(
                    share_or_nothing(origin_share(before, *ctx, domain, origin_of(*g))),
                    share_of(*g, *ctx, domain),
                );
                proof {
                    assert forall|o: Seq<char>|
                        entry_measures(#[trigger] economics.at(o), by_values(o), by_origin(o)) by {}
                }
                measure(
                    &mut economics,
                    g,
                    domain,
                    numbers,
                    Ghost(by_values),
                    Ghost(by_origin),
                    Ghost(whole),
                    Ghost(n),
                );
                proof {
                    assert forall|o: Seq<char>|
                        entry_counts(#[trigger] origins.at(o), origin_share(after, *ctx, domain, o)) by {
                        assert(by_origin(o) == origin_share(before, *ctx, domain, o));
                    }
                    assert forall|o: Seq<char>|
                        entry_measures(
                            #[trigger] economics.at(o),
                            origin_values(after, domain, o),
                            origin_share(after, *ctx, domain, o),
                        ) by {
                        assert(by_origin(o) == origin_share(before, *ctx, domain, o));
                        assert(by_values(o) == origin_values(before, domain, o));
                    }
                }
                assert(texts(share.exclusions@).len() == share.exclusions@.len());
                assert(texts(share.exclusions@) == exclusions_of(*g, *ctx, domain)) by {
                    reveal(share_of);
                }
                if share.exclusions.len() == 0 {
                    proof {
                        eligible_goal_is_complete(*g, *ctx, domain);
                    }
                    let cohort = cohort_text(g);
                    proof {
                        cohort_fits(before, *ctx, domain, cohort@);
                    }
                    let ghost by_cohort = |k: Seq<char>| cohort_share(before, *ctx, domain, k);
                    proof {
                        assert forall|k: Seq<char>|
                            entry_counts(#[trigger] resources.at(k), by_cohort(k)) by {}
                    }
                    let _unused = add_to(
                        &mut resources,
                        cohort.as_str(),
                        &share,
                        Ghost(by_cohort),
                        Ghost(n),
                        Ghost(count_weight(*g)),
                    );
                    proof {
                        assert forall|k: Seq<char>|
                            entry_counts(
                                #[trigger] resources.at(k),
                                cohort_share(after, *ctx, domain, k),
                            ) by {
                            assert(by_cohort(k) == cohort_share(before, *ctx, domain, k));
                        }
                    }
                    let ghost known = references@;
                    let reference = Reference {
                        run_id: g.run_id.clone(),
                        cohort: cohort.clone(),
                        feedback_id: match &g.feedback {
                            Some(f) => f.id.clone(),
                            None => "".to_owned(),
                        },
                        annotation_sequence: match &g.annotation {
                            Some(a) => a.sequence,
                            None => 0,
                        },
                        delivery: g.delivery.clone(),
                        facts: g.facts.clone(),
                    };
                    assert(reference@ == reference_to(*g, cohort@));
                    references.push(reference);
                    assert(reference_views(references@) =~= reference_views(known).push(
                        reference_to(*g, cohort@),
                    ));
                } else {
                    proof {
                        assert forall|k: Seq<char>|
                            entry_counts(
                                #[trigger] resources.at(k),
                                cohort_share(after, *ctx, domain, k),
                            ) by {
                            assert(entry_counts(
                                resources.at(k),
                                cohort_share(before, *ctx, domain, k),
                            ));
                        }
                    }
                }
            },
        }
        i += 1;
    }
    proof {
        if !truncated {
            assert(all.take(end as int) =~= all);
        }
    }
    let mut limits: Vec<String> = Vec::new();
    limits.push(
        "Descriptive selected populations; no causal comparison or success probability.".to_owned(),
    );
    limits.push(
        "Observed Codex model/effort may be unknown; profile outcomes are not confirmed underlying-model measurements.".to_owned(),
    );
    limits.push(
        "No cross-project pooling. Quality cohort requires single-attempt delivery and explicit review provenance.".to_owned(),
    );
    assert(texts(limits@) =~= limitations());
    Summary {
        version: 1,
        cutoff,
        since: cutoff - WINDOW_MICROS,
        annotation_revision,
        context: ctx.copied(),
        truncated,
        counts,
        origins,
        submissions,
        review_provenance,
        execution_contexts,
        resources,
        economics,
        references,
        snapshot_hash: String::new(),
        limitations: limits,
    }
}

/// What every summary says of its own limits.
pub open spec fn limitations() -> Seq<Seq<char>> {
    seq![
        "Descriptive selected populations; no causal comparison or success probability."@,
        "Observed Codex model/effort may be unknown; profile outcomes are not confirmed underlying-model measurements."@,
        "No cross-project pooling. Quality cohort requires single-attempt delivery and explicit review provenance."@,
    ]
}

proof fn eligible_goal_is_complete(g: GoalFacts, ctx: ContextKey, domain: bool)
    requires
        exclusions_of(g, ctx, domain).len() == 0,
    ensures
        g.decision is Some,
        g.attempts@.len() == 1,
        g.attempts@[0].harness_version is Some,
        g.attempts@[0].resolved_model is Some,
        g.attempts@[0].result is Some,
        ctx.mapping is Some,
        same_key(g.decision->0.context, ctx),
{
}

/// What holds between the parts of any share: each goal is reviewed or not, each review accepts or
/// rejects, each acceptance is of verified work or not.
pub open spec fn balanced(s: Share) -> bool {
    &&& s.reviewed == s.accepted + s.rejected
    &&& s.accepted == s.accepted_verified + s.accepted_unverified
    &&& s.goals == s.reviewed + s.missing_review
    &&& s.quality_rejected <= s.rejected
    &&& s.eligible_executions <= s.goals
    &&& s.continuations == s.recovery_triggers.len()
    &&& s.first_attempt_checks.len() == s.goals
    &&& s.verification.len() == s.goals
}

proof fn goal_share_is_balanced(g: GoalFacts, ctx: ContextKey, domain: bool)
    ensures
        balanced(share_of(g, ctx, domain)),
{
    reveal(share_of);
}

/// Every count in a summary is balanced: the reviews are the acceptances and the rejections, the
/// acceptances are those of verified and of unverified work, and the goals are the reviewed ones and
/// those without a review that counts.
pub proof fn counts_are_balanced(
    rows: Seq<Option<GoalFacts>>,
    ctx: ContextKey,
    domain: bool,
    key: Seq<char>,
)
    ensures
        balanced(total_share(rows, ctx, domain)),
        origin_share(rows, ctx, domain, key) matches Some(s) ==> balanced(s),
        cohort_share(rows, ctx, domain, key) matches Some(s) ==> balanced(s),
    decreases rows.len(),
{
    if rows.len() > 0 {
        counts_are_balanced(rows.drop_last(), ctx, domain, key);
        if let Some(g) = rows.last() {
            goal_share_is_balanced(g, ctx, domain);
        }
    }
}

proof fn eligible_share_is_plain(g: GoalFacts, ctx: ContextKey, domain: bool)
    requires
        cohort_of(g, ctx, domain) is Some,
    ensures
        ({
            let s = share_of(g, ctx, domain);
            &&& s.eligible_executions == 1
            &&& s.attempts == 1
            &&& s.policy_chains == 0
            &&& s.continuations == 0
            &&& s.exclusions.len() == 0
        }),
{
    reveal(share_of);
    eligible_goal_is_complete(g, ctx, domain);
    assert(triggers(g.attempts@).len() == 0);
}

/// A cohort counts only goals that one attempt delivered: as many attempts as goals, none of them
/// excluded, continued or combined.
pub proof fn cohorts_count_single_attempts(
    rows: Seq<Option<GoalFacts>>,
    ctx: ContextKey,
    domain: bool,
    cohort: Seq<char>,
)
    ensures
        cohort_share(rows, ctx, domain, cohort) matches Some(s) ==> {
            &&& s.eligible_executions == s.goals
            &&& s.attempts == s.goals
            &&& s.policy_chains == 0
            &&& s.continuations == 0
            &&& s.exclusions.len() == 0
        },
    decreases rows.len(),
{
    if rows.len() > 0 {
        cohorts_count_single_attempts(rows.drop_last(), ctx, domain, cohort);
        if let Some(g) = rows.last() {
            if cohort_of(g, ctx, domain) == Some(cohort) {
                eligible_share_is_plain(g, ctx, domain);
                goal_share_is_balanced(g, ctx, domain);
                assert(share_of(g, ctx, domain).goals == 1) by {
                    reveal(share_of);
                }
            }
        }
    }
}

/// Whether a mapping is about these features and these checks, and about a task whose kind and
/// reach are known.
pub open spec fn mapping_fits(m: Mapping, features: TaskFeatures, verify: Seq<String>) -> bool {
    &&& optional_view(m.features.language) == optional_view(features.language)
    &&& m.features.task_kind == features.task_kind
    &&& m.features.scope == features.scope
    &&& texts(m.verify@) == texts(verify)
    &&& m.verify@.len() > 0
    &&& m.id@.len() > 0
    &&& features.language is Some
    &&& features.task_kind != TaskKind::Unknown
    &&& features.scope == TaskScope::Localized || features.scope == TaskScope::MultiFile
}

/// Whether `i` is the only mapping that fits.
pub open spec fn only_mapping(
    mappings: Seq<Mapping>,
    features: TaskFeatures,
    verify: Seq<String>,
    i: int,
) -> bool {
    &&& 0 <= i < mappings.len()
    &&& mapping_fits(mappings[i], features, verify)
    &&& forall|j: int|
        0 <= j < mappings.len() && mapping_fits(#[trigger] mappings[j], features, verify) ==> j == i
}

fn same_texts(a: &Vec<String>, b: &Vec<String>) -> (r: bool)
    ensures
        r == (texts(a@) == texts(b@)),
{
    if a.len() != b.len() {
        assert(texts(a@).len() != texts(b@).len());
        return false;
    }
    let mut i: usize = 0;
    while i < a.len()
        invariant
            i <= a.len(),
            a.len() == b.len(),
            forall|k: int| 0 <= k < i ==> (#[trigger] a@[k])@ == b@[k]@,
        decreases a.len() - i,
    {
        if !same(a[i].as_str(), b[i].as_str()) {
            assert(texts(a@)[i as int] != texts(b@)[i as int]);
            return false;
        }
        i += 1;
    }
    assert(texts(a@) =~= texts(b@));
    true
}

fn fits(m: &Mapping, features: &TaskFeatures, verify: &Vec<String>) -> (r: bool)
    ensures
        r == mapping_fits(*m, *features, verify@),
{
    same_optional(&m.features.language, as_slice_option(&features.language)) && m.features.task_kind
        == features.task_kind && m.features.scope == features.scope && same_texts(&m.verify, verify)
        && m.verify.len() > 0 && !m.id.as_str().is_empty() && features.language.is_some()
        && features.task_kind != TaskKind::Unknown && (features.scope == TaskScope::Localized
        || features.scope == TaskScope::MultiFile)
}

/// The mapping that a task falls under, if exactly one fits it.
pub fn routine_mapping(
    mappings: &Vec<Mapping>,
    features: &TaskFeatures,
    verify: &Vec<String>,
) -> (r: Option<usize>)
    ensures
        match r {
            Some(i) => only_mapping(mappings@, *features, verify@, i as int),
            None => forall|i: int| !#[trigger] only_mapping(mappings@, *features, verify@, i),
        },
{
    let mut found: Option<usize> = None;
    let mut many = false;
    let mut i: usize = 0;
    while i < mappings.len()
        invariant
            i <= mappings.len(),
            match found {
                Some(k) => k < i && mapping_fits(mappings@[k as int], *features, verify@) && (!many
                    ==> forall|j: int|
                    0 <= j < i && mapping_fits(#[trigger] mappings@[j], *features, verify@) ==> j == k)
                    && (many ==> exists|a: int, b: int|
                    0 <= a < b < i && mapping_fits(#[trigger] mappings@[a], *features, verify@)
                        && mapping_fits(#[trigger] mappings@[b], *features, verify@)),
                None => !many && forall|j: int|
                    0 <= j < i ==> !mapping_fits(#[trigger] mappings@[j], *features, verify@),
            },
        decreases mappings.len() - i,
    {
        if fits(&mappings[i], features, verify) {
            match found {
                None => {
                    found = Some(i);
                },
                Some(k) => {
                    many = true;
                    assert(mapping_fits(mappings@[k as int], *features, verify@) && mapping_fits(
                        mappings@[i as int],
                        *features,
                        verify@,
                    ));
                },
            }
        }
        i += 1;
    }
    if many {
        None
    } else {
        found
    }
}

/// The context of a task. `source_key` and `verification` stand for the source and for its checks;
/// `mapping_keys` holds what stands for each routine mapping.
pub fn context(
    source_key: &str,
    features: &TaskFeatures,
    config: &EvidenceConfig,
    verify: &Vec<String>,
    verification: &str,
    mapping_keys: &Vec<String>,
) -> (r: ContextKey)
    requires
        mapping_keys@.len() == config.routine_mappings@.len(),
    ensures
        r.source_key@ == source_key@,
        r.features == *features,
        r.verification@ == verification@,
        r.base_policy@ == base_policy(),
        match r.mapping {
            Some(key) => exists|i: int| #[trigger]
                only_mapping(config.routine_mappings@, *features, verify@, i) && key == mapping_keys@[i],
            None => forall|i: int|
                !#[trigger] only_mapping(config.routine_mappings@, *features, verify@, i),
        },
{
    let mapping = match routine_mapping(&config.routine_mappings, features, verify) {
        Some(i) => Some(mapping_keys[i].clone()),
        None => None,
    };
    ContextKey {
        source_key: source_key.to_owned(),
        features: features.copied(),
        verification: verification.to_owned(),
        mapping,
        base_policy: "allocation-portfolio-v3".to_owned(),
    }
}

/// A task whose kind, language or reach is not known falls under no mapping.
pub proof fn unknown_tasks_are_never_mapped(
    mappings: Seq<Mapping>,
    features: TaskFeatures,
    verify: Seq<String>,
    i: int,
)
    requires
        features.language is None || features.task_kind == TaskKind::Unknown || features.scope
            == TaskScope::Unknown || features.scope == TaskScope::Broad || verify.len() == 0,
    ensures
        !only_mapping(mappings, features, verify, i),
{
    if only_mapping(mappings, features, verify, i) {
        assert(texts(mappings[i].verify@).len() == texts(verify).len());
    }
}

/// The parameters of the trial rule.
#[derive(Debug, Clone, Copy, PartialEq, Eq, Structural)]
pub struct RuleParameters {
    pub window_days: i64,
    pub minimum_reviewed: u64,
    pub minimum_review_coverage_percent: u64,
    pub minimum_quality_rejections: u64,
    pub minimum_quality_rejection_percent: u64,
    pub minimum_alternative_verified: u64,
    pub maximum_window_goals: u64,
}

/// The parameters that the trial rule goes by.
pub open spec fn parameters_in_force() -> RuleParameters {
    RuleParameters {
        window_days: WINDOW_DAYS,
        minimum_reviewed: MIN_REVIEWED,
        minimum_review_coverage_percent: 80,
        minimum_quality_rejections: MIN_QUALITY_REJECTIONS,
        minimum_quality_rejection_percent: 25,
        minimum_alternative_verified: 1,
        maximum_window_goals: 1000,
    }
}

/// The parameters that the trial rule goes by.
pub fn rule_parameters() -> (r: RuleParameters)
    ensures
        r == parameters_in_force(),
{
    RuleParameters {
        window_days: WINDOW_DAYS,
        minimum_reviewed: MIN_REVIEWED,
        minimum_review_coverage_percent: 80,
        minimum_quality_rejections: MIN_QUALITY_REJECTIONS,
        minimum_quality_rejection_percent: 25,
        minimum_alternative_verified: 1,
        maximum_window_goals: 1000,
    }
}

/// A proposal to try another resource for one kind of task.
#[derive(Debug, Clone, PartialEq, Eq)]
pub struct Proposal {
    pub version: u32,
    pub rule: String,
    pub context: ContextKey,
    pub cutoff: i64,
    pub source_behavior: String,
    pub target_behavior: String,
    pub target: ResourceChoice,
    pub counts: Counts,
    pub references: Vec<Reference>,
    pub snapshot_hash: String,
    pub parameters: RuleParameters,
    pub limitations: Vec<String>,
    pub fallback: String,
}

/// Whether two counts hold the same.
pub open spec fn same_counts(a: Counts, b: Counts) -> bool {
    &&& a.goals == b.goals
    &&& a.attempts == b.attempts
    &&& a.launched == b.launched
    &&& a.launch_unknown == b.launch_unknown
    &&& a.prelaunch == b.prelaunch
    &&& a.policy_chains == b.policy_chains
    &&& a.continuations == b.continuations
    &&& a.first_attempt_checks.entries@ == b.first_attempt_checks.entries@
    &&& a.recovery_triggers.entries@ == b.recovery_triggers.entries@
    &&& a.eligible_executions == b.eligible_executions
    &&& a.reviewed == b.reviewed
    &&& a.accepted == b.accepted
    &&& a.rejected == b.rejected
    &&& a.quality_rejected == b.quality_rejected
    &&& a.accepted_verified == b.accepted_verified
    &&& a.accepted_unverified == b.accepted_unverified
    &&& a.accepted_apply_blocked == b.accepted_apply_blocked
    &&& a.missing_review == b.missing_review
    &&& a.deferred == b.deferred
    &&& a.verification.entries@ == b.verification.entries@
    &&& a.failures.entries@ == b.failures.entries@
    &&& a.goal_failures.entries@ == b.goal_failures.entries@
    &&& a.exclusions.entries@ == b.exclusions.entries@
}

impl Counts {
    /// A copy that holds the same.
    pub fn copied(&self) -> (r: Self)
        ensures
            same_counts(r, *self),
    {
        Counts {
            goals: self.goals,
            attempts: self.attempts,
            launched: self.launched,
            launch_unknown: self.launch_unknown,
            prelaunch: self.prelaunch,
            policy_chains: self.policy_chains,
            continuations: self.continuations,
            first_attempt_checks: self.first_attempt_checks.copied(),
            recovery_triggers: self.recovery_triggers.copied(),
            eligible_executions: self.eligible_executions,
            reviewed: self.reviewed,
            accepted: self.accepted,
            rejected: self.rejected,
            quality_rejected: self.quality_rejected,
            accepted_verified: self.accepted_verified,
            accepted_unverified: self.accepted_unverified,
            accepted_apply_blocked: self.accepted_apply_blocked,
            missing_review: self.missing_review,
            deferred: self.deferred,
            verification: self.verification.copied(),
            failures: self.failures.copied(),
            goal_failures: self.goal_failures.copied(),
            exclusions: self.exclusions.copied(),
        }
    }
}

impl Reference {
    /// An exact copy.
    pub fn copied(&self) -> (r: Self)
        ensures
            r == *self,
    {
        Reference {
            run_id: self.run_id.clone(),
            cohort: self.cohort.clone(),
            feedback_id: self.feedback_id.clone(),
            annotation_sequence: self.annotation_sequence,
            delivery: self.delivery.clone(),
            facts: self.facts.clone(),
        }
    }
}

/// Whether a behaviour is that of a choice.
pub open spec fn behaves_as(b: Behavior, c: ResourceChoice) -> bool {
    b.resolved_model@ == c.resolved_model@ && b.harness@ == c.harness@ && optional_view(b.effort)
        == optional_view(c.effort)
}

/// The first behaviour that is that of a choice, from `from` on.
pub open spec fn behavior_of(behaviors: Seq<Behavior>, c: ResourceChoice, from: int) -> Option<int>
    decreases behaviors.len() - from,
{
    if from < 0 || from >= behaviors.len() {
        None
    } else if behaves_as(behaviors[from], c) {
        Some(from)
    } else {
        behavior_of(behaviors, c, from + 1)
    }
}

/// The cohorts below `n` of one behaviour, in order.
pub open spec fn cohorts_of(entries: Seq<(String, Counts)>, key: Seq<char>, n: int) -> Seq<int>
    decreases n,
{
    if n <= 0 {
        Seq::empty()
    } else if begins_with(entries[n - 1].0@, key + "|"@) {
        cohorts_of(entries, key, n - 1).push(n - 1)
    } else {
        cohorts_of(entries, key, n - 1)
    }
}

/// The only cohort of a behaviour, if there is exactly one.
pub open spec fn only_cohort(resources: TextMap<Counts>, key: Seq<char>) -> Option<int> {
    let found = cohorts_of(resources.entries@, key, resources.entries@.len() as int);
    if found.len() == 1 {
        Some(found[0])
    } else {
        None
    }
}

/// Whether an alternative can be tried: it may run, it is stronger, and its one cohort has verified
/// work.
pub open spec fn can_be_tried(summary: Summary, alt: AllocationAlternative, b: Behavior) -> bool {
    &&& alt.eligible
    &&& b.executable_known
    &&& alt.choice.tier != ResourceTier::Light
    &&& only_cohort(summary.resources, b.key@) matches Some(k) && (
    summary.resources.entries@[k].1.verification.at("passed"@) matches Some(n) && n > 0)
}

/// The first alternative from `from` on that can be tried.
pub open spec fn first_trial(
    summary: Summary,
    alternatives: Seq<AllocationAlternative>,
    behaviors: Seq<Behavior>,
    from: int,
) -> Option<int>
    decreases alternatives.len() - from,
{
    if from < 0 || from >= alternatives.len() || from >= behaviors.len() {
        None
    } else if can_be_tried(summary, alternatives[from], behaviors[from]) {
        Some(from)
    } else {
        first_trial(summary, alternatives, behaviors, from + 1)
    }
}

/// What screening a window for a trial gives.
pub ghost enum Screening {
    /// The selected resource has no recorded behaviour.
    Broken,
    /// No trial, for this reason.
    Abstain(Seq<char>),
    /// A trial of the alternative, on the ground of the cohort.
    Trial { base: int, cohort: int, alternative: int },
}

/// What screening a window for a trial gives.
pub open spec fn screening(
    summary: Summary,
    decision: AllocationDecision,
    behaviors: Seq<Behavior>,
) -> Screening {
    if summary.truncated || summary.context.mapping is None {
        Screening::Abstain("incomplete_window_or_unmapped_task"@)
    } else if summary.context.features.scope != TaskScope::Localized {
        Screening::Abstain("task_scope_outside_trial_rule"@)
    } else if decision.selected.tier != ResourceTier::Light {
        Screening::Abstain("base_choice_is_not_light"@)
    } else {
        match behavior_of(behaviors, decision.selected, 0) {
            None => Screening::Broken,
            Some(base) => if !behaviors[base].executable_known || behaviors[base].runtime@ != "local"@ {
                Screening::Abstain("incomplete_runtime_identity"@)
            } else {
                match only_cohort(summary.resources, behaviors[base].key@) {
                    None => Screening::Abstain("insufficient_or_conflicting_resource_cohorts"@),
                    Some(cohort) => {
                        let counts = summary.resources.entries@[cohort].1;
                        if counts.reviewed < MIN_REVIEWED || counts.reviewed * 100 < counts.goals * 80 {
                            Screening::Abstain("insufficient_reviewed_goals_or_review_coverage"@)
                        } else if counts.quality_rejected < MIN_QUALITY_REJECTIONS
                            || counts.quality_rejected * 100 < counts.reviewed * 25 {
                            Screening::Abstain("quality_rejection_trigger_not_met"@)
                        } else {
                            match first_trial(summary, decision.alternatives@, behaviors, 0) {
                                Some(alternative) => Screening::Trial { base, cohort, alternative },
                                None => Screening::Abstain(
                                    "no_compatible_verified_alternative_support"@,
                                ),
                            }
                        }
                    },
                }
            },
        }
    }
}

/// What every proposal says of its own limits.
pub open spec fn proposal_limits() -> Seq<Seq<char>> {
    seq![
        "Trial proposal; alternative superiority is unproven. No numerical uplift."@,
        "Only explicitly classified correctness/completeness/rework rejections trigger this rule."@,
        "Unknown observed identity supports resolved-profile trials only, never pure-model claims."@,
    ]
}

/// The references to goals of two cohorts, in order.
pub open spec fn references_of(references: Seq<Reference>, a: Seq<char>, b: Seq<char>) -> Seq<Reference>
    decreases references.len(),
{
    if references.len() == 0 {
        Seq::empty()
    } else {
        let earlier = references_of(references.drop_last(), a, b);
        if references.last().cohort@ == a || references.last().cohort@ == b {
            earlier.push(references.last())
        } else {
            earlier
        }
    }
}

/// Whether `p` is the proposal for a trial of the alternative.
pub open spec fn begins_trial(
    p: Proposal,
    summary: Summary,
    decision: AllocationDecision,
    behaviors: Seq<Behavior>,
    base: int,
    cohort: int,
    alternative: int,
) -> bool {
    let target = behaviors[alternative];
    let supported = only_cohort(summary.resources, target.key@)->0;
    &&& p.version == 1
    &&& p.rule@ == trial_rule()
    &&& p.context == summary.context
    &&& p.cutoff == summary.cutoff
    &&& p.source_behavior == behaviors[base].key
    &&& p.target_behavior == target.key
    &&& p.target == decision.alternatives@[alternative].choice
    &&& same_counts(p.counts, summary.resources.entries@[cohort].1)
    &&& p.references@ == references_of(
        summary.references@,
        summary.resources.entries@[cohort].0@,
        summary.resources.entries@[supported].0@,
    )
    &&& p.snapshot_hash == summary.snapshot_hash
    &&& p.parameters == parameters_in_force()
    &&& texts(p.limitations@) == proposal_limits()
    &&& p.fallback@
        == "Use unchanged deterministic selection among currently suitable authorized choices; otherwise existing defer/block."@
}

pub(crate) fn find_only_cohort(resources: &TextMap<Counts>, key: &str) -> (r: Option<usize>)
    ensures
        match r {
            Some(i) => only_cohort(*resources, key@) == Some(i as int) && i
                < resources.entries@.len(),
            None => only_cohort(*resources, key@) is None,
        },
{
    let mut prefix = key.to_owned();
    prefix.push_str("|");
    let mut first: Option<usize> = None;
    let mut many = false;
    let mut i: usize = 0;
    while i < resources.entries.len()
        invariant
            i <= resources.entries.len(),
            prefix@ == key@ + "|"@,
            match first {
                None => !many && cohorts_of(resources.entries@, key@, i as int).len() == 0,
                Some(k) => k < i && cohorts_of(resources.entries@, key@, i as int).len() >= 1
                    && cohorts_of(resources.entries@, key@, i as int)[0] == k && many == (cohorts_of(
                    resources.entries@,
                    key@,
                    i as int,
                ).len() > 1),
            },
        decreases resources.entries.len() - i,
    {
        if has_prefix(resources.entries[i].0.as_str(), prefix.as_str()) {
            match first {
                None => {
                    first = Some(i);
                },
                Some(_) => {
                    many = true;
                },
            }
        }
        i += 1;
    }
    if many {
        None
    } else {
        first
    }
}

fn find_behavior(behaviors: &Vec<Behavior>, c: &ResourceChoice) -> (r: Option<usize>)
    ensures
        match r {
            Some(i) => behavior_of(behaviors@, *c, 0) == Some(i as int) && i < behaviors.len(),
            None => behavior_of(behaviors@, *c, 0) is None,
        },
{
    let mut i: usize = 0;
    while i < behaviors.len()
        invariant
            i <= behaviors.len(),
            behavior_of(behaviors@, *c, 0) == behavior_of(behaviors@, *c, i as int),
        decreases behaviors.len() - i,
    {
        let b = &behaviors[i];
        if same(b.resolved_model.as_str(), c.resolved_model.as_str()) && same(
            b.harness.as_str(),
            c.harness.as_str(),
        ) && same_optional(&b.effort, as_slice_option(&c.effort)) {
            return Some(i);
        }
        i += 1;
    }
    None
}

fn find_trial(summary: &Summary, alternatives: &Vec<AllocationAlternative>, behaviors: &Vec<Behavior>) -> (r: Option<(usize, usize)>)
    ensures
        match r {
            Some((i, k)) => {
                &&& first_trial(*summary, alternatives@, behaviors@, 0) == Some(i as int)
                &&& i < alternatives.len()
                &&& i < behaviors.len()
                &&& only_cohort(summary.resources, behaviors@[i as int].key@) == Some(k as int)
                &&& k < summary.resources.entries@.len()
            },
            None => first_trial(*summary, alternatives@, behaviors@, 0) is None,
        },
{
    let mut i: usize = 0;
    while i < alternatives.len() && i < behaviors.len()
        invariant
            i <= alternatives.len(),
            i <= behaviors.len(),
            first_trial(*summary, alternatives@, behaviors@, 0) == first_trial(
                *summary,
                alternatives@,
                behaviors@,
                i as int,
            ),
        decreases alternatives.len() - i,
    {
        if alternatives[i].eligible && behaviors[i].executable_known && alternatives[i].choice.tier
            != ResourceTier::Light {
            if let Some(k) = find_only_cohort(&summary.resources, behaviors[i].key.as_str()) {
                let passed: u64 = match summary.resources.entries[k].1.verification.get("passed") {
                    Some(n) => *n,
                    None => 0,
                };
                if passed > 0 {
                    return Some((i, k));
                }
            }
        }
        i += 1;
    }
    None
}

fn pick_references(references: &Vec<Reference>, a: &str, b: &str) -> (r: Vec<Reference>)
    ensures
        r@ == references_of(references@, a@, b@),
{
    let mut out: Vec<Reference> = Vec::new();
    let mut i: usize = 0;
    assert(references_of(references@.take(0), a@, b@) =~= Seq::empty());
    while i < references.len()
        invariant
            i <= references.len(),
            out@ == references_of(references@.take(i as int), a@, b@),
        decreases references.len() - i,
    {
        assert(references@.take(i as int + 1).drop_last() =~= references@.take(i as int));
        if same(references[i].cohort.as_str(), a) || same(references[i].cohort.as_str(), b) {
            out.push(references[i].copied());
        }
        i += 1;
    }
    assert(references@.take(references@.len() as int) =~= references@);
    out
}

/// Screens a window for a trial of a stronger resource: repeated quality rejections of one light
/// cohort, and one verified alternative. A proposal is not an activation.
pub fn proposal(
    summary: &Summary,
    decision: &AllocationDecision,
    behaviors: &Vec<Behavior>,
) -> (r: Result<(Option<Proposal>, String), String>)
    ensures
        match screening(*summary, *decision, behaviors@) {
            Screening::Broken => r matches Err(e) && e@ == "missing selected behavior"@,
            Screening::Abstain(reason) => r matches Ok((p, why)) && p is None && why@ == reason,
            Screening::Trial { base, cohort, alternative } => {
                &&& r matches Ok((Some(p), why))
                &&& begins_trial(p, *summary, *decision, behaviors@, base, cohort, alternative)
                &&& why@ == "repeated_quality_rejections_trial_only"@
            },
        },
{
    if summary.truncated || summary.context.mapping.is_none() {
        return Ok((None, "incomplete_window_or_unmapped_task".to_owned()));
    }
    if summary.context.features.scope != TaskScope::Localized {
        return Ok((None, "task_scope_outside_trial_rule".to_owned()));
    }
    if decision.selected.tier != ResourceTier::Light {
        return Ok((None, "base_choice_is_not_light".to_owned()));
    }
    let base = match find_behavior(behaviors, &decision.selected) {
        None => {
            return Err("missing selected behavior".to_owned());
        },
        Some(base) => base,
    };
    if !behaviors[base].executable_known || !same(behaviors[base].runtime.as_str(), "local") {
        return Ok((None, "incomplete_runtime_identity".to_owned()));
    }
    let cohort = match find_only_cohort(&summary.resources, behaviors[base].key.as_str()) {
        None => {
            return Ok((None, "insufficient_or_conflicting_resource_cohorts".to_owned()));
        },
        Some(cohort) => cohort,
    };
    let counts = &summary.resources.entries[cohort].1;
    if counts.reviewed < MIN_REVIEWED || (counts.reviewed as u128) * 100 < (counts.goals as u128) * 80 {
        return Ok((None, "insufficient_reviewed_goals_or_review_coverage".to_owned()));
    }
    if counts.quality_rejected < MIN_QUALITY_REJECTIONS || (counts.quality_rejected as u128) * 100 < (
    counts.reviewed as u128) * 25 {
        return Ok((None, "quality_rejection_trigger_not_met".to_owned()));
    }
    match find_trial(summary, &decision.alternatives, behaviors) {
        None => Ok((None, "no_compatible_verified_alternative_support".to_owned())),
        Some((alternative, supported)) => {
            let references = pick_references(
                &summary.references,
                summary.resources.entries[cohort].0.as_str(),
                summary.resources.entries[supported].0.as_str(),
            );
            let mut limits: Vec<String> = Vec::new();
            limits.push(
                "Trial proposal; alternative superiority is unproven. No numerical uplift.".to_owned(),
            );
            limits.push(
                "Only explicitly classified correctness/completeness/rework rejections trigger this rule.".to_owned(),
            );
            limits.push(
                "Unknown observed identity supports resolved-profile trials only, never pure-model claims.".to_owned(),
            );
            assert(texts(limits@) =~= proposal_limits());
            let p = Proposal {
                version: 1,
                rule: "private-quality-trial-v1".to_owned(),
                context: summary.context.copied(),
                cutoff: summary.cutoff,
                source_behavior: behaviors[base].key.clone(),
                target_behavior: behaviors[alternative].key.clone(),
                target: decision.alternatives[alternative].choice.copied(),
                counts: counts.copied(),
                references,
                snapshot_hash: summary.snapshot_hash.clone(),
                parameters: rule_parameters(),
                limitations: limits,
                fallback: "Use unchanged deterministic selection among currently suitable authorized choices; otherwise existing defer/block.".to_owned(),
            };
            Ok((Some(p), "repeated_quality_rejections_trial_only".to_owned()))
        },
    }
}

proof fn first_trial_can_be_tried(
    summary: Summary,
    alternatives: Seq<AllocationAlternative>,
    behaviors: Seq<Behavior>,
    from: int,
)
    ensures
        first_trial(summary, alternatives, behaviors, from) matches Some(i) ==> 0 <= i < alternatives.len()
            && i < behaviors.len() && can_be_tried(summary, alternatives[i], behaviors[i]),
    decreases alternatives.len() - from,
{
    if 0 <= from < alternatives.len() && from < behaviors.len() {
        first_trial_can_be_tried(summary, alternatives, behaviors, from + 1);
    }
}

/// A trial is proposed only on enough reviewed goals and quality rejections of the light resource in
/// use, and only of a stronger resource that may run and has verified work.
pub proof fn trials_need_evidence(
    summary: Summary,
    decision: AllocationDecision,
    behaviors: Seq<Behavior>,
)
    ensures
        screening(summary, decision, behaviors) matches Screening::Trial { base, cohort, alternative }
            ==> {
            let counts = summary.resources.entries@[cohort].1;
            &&& !summary.truncated
            &&& summary.context.mapping is Some
            &&& decision.selected.tier == ResourceTier::Light
            &&& counts.reviewed >= 20
            &&& counts.reviewed * 100 >= counts.goals * 80
            &&& counts.quality_rejected >= 5
            &&& counts.quality_rejected * 100 >= counts.reviewed * 25
            &&& decision.alternatives@[alternative].eligible
            &&& decision.alternatives@[alternative].choice.tier != ResourceTier::Light
        },
{
    first_trial_can_be_tried(summary, decision.alternatives@, behaviors, 0);
}

/// What stands for a source in stored rows: the digest of its canonical path.
pub fn source_key(canonical: &str) -> (r: String)
    ensures
        r@ == text_digest(canonical@),
{
    digest(canonical)
}

/// A stored change of the private policy of a source.
#[derive(Debug, Clone, PartialEq, Eq)]
pub struct PolicyTransition {
    pub source_key: String,
    pub revision: u64,
    pub proposal_id: Option<String>,
}

/// The first row of the highest revision for a source.
pub open spec fn latest(rows: Seq<PolicyTransition>, key: Seq<char>) -> Option<int>
    decreases rows.len(),
{
    if rows.len() == 0 {
        None
    } else {
        let earlier = latest(rows.drop_last(), key);
        let newer = match earlier {
            Some(i) => rows[i].revision < rows.last().revision,
            None => true,
        };
        if rows.last().source_key@ == key && newer {
            Some(rows.len() - 1)
        } else {
            earlier
        }
    }
}

/// The revision in force for a source, and the proposal it made active; no row is revision zero.
pub fn active(rows: &Vec<PolicyTransition>, key: &str) -> (r: (u64, Option<String>))
    ensures
        match latest(rows@, key@) {
            Some(i) => r.0 == rows@[i].revision && r.1 == rows@[i].proposal_id,
            None => r.0 == 0 && r.1 is None,
        },
{
    let mut found: Option<usize> = None;
    let mut i: usize = 0;
    assert(latest(rows@.take(0), key@) is None);
    while i < rows.len()
        invariant
            i <= rows.len(),
            match found {
                Some(k) => k < i && latest(rows@.take(i as int), key@) == Some(k as int),
                None => latest(rows@.take(i as int), key@) is None,
            },
        decreases rows.len() - i,
    {
        assert(rows@.take(i as int + 1).drop_last() =~= rows@.take(i as int));
        if same(rows[i].source_key.as_str(), key) {
            let newer = match found {
                Some(k) => rows[k].revision < rows[i].revision,
                None => true,
            };
            if newer {
                found = Some(i);
            }
        }
        i += 1;
    }
    assert(rows@.take(rows@.len() as int) =~= rows@);
    match found {
        Some(k) => (rows[k].revision, copy_optional(&rows[k].proposal_id)),
        None => (0, None),
    }
}

/// The revision of the private policy in force for a source.
pub fn policy_revision(rows: &Vec<PolicyTransition>, key: &str) -> (r: u64)
    ensures
        r == revision_in_force(rows@, key@),
{
    active(rows, key).0
}

/// The revision of the private policy in force for a source.
pub open spec fn revision_in_force(rows: Seq<PolicyTransition>, key: Seq<char>) -> u64 {
    match latest(rows, key) {
        Some(i) => rows[i].revision,
        None => 0,
    }
}

/// No stored row of a source has a higher revision than the one in force.
pub proof fn revision_in_force_is_highest(rows: Seq<PolicyTransition>, key: Seq<char>, i: int)
    requires
        0 <= i < rows.len(),
        rows[i].source_key@ == key,
    ensures
        rows[i].revision <= revision_in_force(rows, key),
    decreases rows.len(),
{
    latest_is_a_row(rows.drop_last(), key);
    if i < rows.len() - 1 {
        revision_in_force_is_highest(rows.drop_last(), key, i);
    }
}

proof fn latest_is_a_row(rows: Seq<PolicyTransition>, key: Seq<char>)
    ensures
        latest(rows, key) matches Some(i) ==> 0 <= i < rows.len() && rows[i].source_key@ == key,
    decreases rows.len(),
{
    if rows.len() > 0 {
        latest_is_a_row(rows.drop_last(), key);
    }
}

/// A change that carries the next revision is in force once it is stored, and leaves every other
/// source as it was.
pub proof fn next_revision_takes_force(
    rows: Seq<PolicyTransition>,
    next: PolicyTransition,
    other: Seq<char>,
)
    requires
        next.revision == revision_in_force(rows, next.source_key@) + 1,
    ensures
        latest(rows.push(next), next.source_key@) == Some(rows.len() as int),
        revision_in_force(rows.push(next), next.source_key@) == next.revision,
        other != next.source_key@ ==> revision_in_force(rows.push(next), other)
            == revision_in_force(rows, other),
{
    assert(rows.push(next).drop_last() =~= rows);
    latest_is_a_row(rows, next.source_key@);
    latest_is_a_row(rows, other);
}

/// A text or nothing, as JSON writes it.
pub open spec fn json_optional(s: Option<Seq<char>>) -> Seq<char> {
    match s {
        Some(text) => json_string(text),
        None => "null"@,
    }
}

fn write_optional(s: Option<&str>) -> (r: String)
    ensures
        r@ == json_optional(optional_str(s)),
{
    match s {
        Some(text) => json_string_of(text),
        None => "null".to_owned(),
    }
}

/// What the behaviour of a resource depends on, as JSON: the resource itself, its program by its hash,
/// and the settings of its harness and of the execution, which are given as JSON.
pub open spec fn behavior_text(
    choice: ResourceChoice,
    executable: Option<Seq<char>>,
    harness: Seq<char>,
    execution: Seq<char>,
) -> Seq<char> {
    "{\"adapter_contract\":\"phase6-title-disabled-v1\",\"behavior\":{\"effort\":"@ + json_optional(
        optional_view(choice.effort),
    ) + ",\"executable_known\":"@ + (if executable is Some {
        "true"@
    } else {
        "false"@
    }) + ",\"harness\":"@ + json_string(choice.harness@) + ",\"key\":\"\",\"provider\":"@ + json_string(
        choice.provider@,
    ) + ",\"requested_model\":"@ + json_string(choice.requested_model@) + ",\"resolved_model\":"@
        + json_string(choice.resolved_model@) + ",\"runtime\":"@ + json_string(choice.runtime@)
        + ",\"service_mode\":"@ + json_string(choice.service_mode@) + "},\"executable\":"@
        + json_optional(executable) + ",\"execution\":"@ + execution + ",\"harness\":"@ + harness
        + "}"@
}

/// The behaviour of a resource. `executable` is the hash of its program where that is known, `harness`
/// and `execution` are the settings of its harness and of the execution as JSON.
pub fn behavior(choice: &ResourceChoice, executable: Option<&str>, harness: &str, execution: &str) -> (r:
    Behavior)
    ensures
        r.key@ == hash_text(
            encode_utf8(behavior_text(*choice, optional_str(executable), harness@, execution@)),
        ),
        r.executable_known == (executable is Some),
        r.provider == choice.provider,
        r.harness == choice.harness,
        r.requested_model == choice.requested_model,
        r.resolved_model == choice.resolved_model,
        r.effort == choice.effort,
        r.runtime == choice.runtime,
        r.service_mode == choice.service_mode,
{
    let mut text =
        "{\"adapter_contract\":\"phase6-title-disabled-v1\",\"behavior\":{\"effort\":".to_owned();
    let effort = match &choice.effort {
        Some(effort) => Some(effort.as_str()),
        None => None,
    };
    text.push_str(write_optional(effort).as_str());
    text.push_str(",\"executable_known\":");
    text.push_str(
        if executable.is_some() {
            "true"
        } else {
            "false"
        },
    );
    text.push_str(",\"harness\":");
    text.push_str(json_string_of(choice.harness.as_str()).as_str());
    text.push_str(",\"key\":\"\",\"provider\":");
    text.push_str(json_string_of(choice.provider.as_str()).as_str());
    text.push_str(",\"requested_model\":");
    text.push_str(json_string_of(choice.requested_model.as_str()).as_str());
    text.push_str(",\"resolved_model\":");
    text.push_str(json_string_of(choice.resolved_model.as_str()).as_str());
    text.push_str(",\"runtime\":");
    text.push_str(json_string_of(choice.runtime.as_str()).as_str());
    text.push_str(",\"service_mode\":");
    text.push_str(json_string_of(choice.service_mode.as_str()).as_str());
    text.push_str("},\"executable\":");
    text.push_str(write_optional(executable).as_str());
    text.push_str(",\"execution\":");
    text.push_str(execution);
    text.push_str(",\"harness\":");
    text.push_str(harness);
    text.push_str("}");
    Behavior {
        key: text_hash(text.as_str()),
        executable_known: executable.is_some(),
        provider: choice.provider.clone(),
        harness: choice.harness.clone(),
        requested_model: choice.requested_model.clone(),
        resolved_model: choice.resolved_model.clone(),
        effort: copy_optional(&choice.effort),
        runtime: choice.runtime.clone(),
        service_mode: choice.service_mode.clone(),
    }
}

/// How a resource is paid for, and from which pool, is no part of its behaviour.
pub proof fn funding_is_no_behavior(
    a: ResourceChoice,
    b: ResourceChoice,
    executable: Option<Seq<char>>,
    harness: Seq<char>,
    execution: Seq<char>,
)
    requires
        a == (ResourceChoice { funding_source: a.funding_source, pool: a.pool, ..b }),
    ensures
        behavior_text(a, executable, harness, execution) == behavior_text(
            b,
            executable,
            harness,
            execution,
        ),
{
}

/// Texts as a JSON array of strings, without its brackets.
pub open spec fn json_items(items: Seq<Seq<char>>) -> Seq<char>
    decreases items.len(),
{
    if items.len() == 0 {
        Seq::empty()
    } else if items.len() == 1 {
        json_string(items[0])
    } else {
        json_items(items.drop_last()) + ","@ + json_string(items.last())
    }
}

fn put_items(text: &mut String, items: &Vec<String>)
    ensures
        final(text)@ == old(text)@ + json_items(texts(items@)),
{
    let ghost all = texts(items@);
    let mut i: usize = 0;
    assert(all.take(0) =~= Seq::<Seq<char>>::empty());
    assert(text@ =~= old(text)@ + json_items(all.take(0)));
    while i < items.len()
        invariant
            i <= items@.len(),
            all == texts(items@),
            text@ == old(text)@ + json_items(all.take(i as int)),
        decreases items@.len() - i,
    {
        if i > 0 {
            text.push_str(",");
        }
        text.push_str(json_string_of(items[i].as_str()).as_str());
        proof {
            let now = all.take(i + 1);
            assert(now.drop_last() =~= all.take(i as int));
            assert(text@ =~= old(text)@ + json_items(now));
        }
        i += 1;
    }
    assert(all.take(items@.len() as int) =~= all);
}

/// A summary with its hash: that of its bytes, which are the summary as JSON while the hash is still
/// empty. Everything else of it stays.
pub fn sealed(summary: Summary, bytes: &Vec<u8>) -> (r: Summary)
    ensures
        r == (Summary { snapshot_hash: r.snapshot_hash, ..summary }),
        r.snapshot_hash@ == hash_text(bytes@),
{
    let mut out = summary;
    out.snapshot_hash = file_hash(bytes.as_slice());
    out
}

/// What a delivery is, as JSON: its baseline, its candidates, which are given as JSON, the attempts that
/// contributed to it and the last of them.
pub open spec fn delivery_text(run: RunRecord, candidates: Seq<char>) -> Seq<char> {
    "{\"baseline\":"@ + json_string(run.baseline_commit@) + ",\"candidates\":"@ + candidates
        + ",\"contributors\":"@ + (match run.phase3 {
        Some(p) => "["@ + json_items(texts(p.contributing_attempts@)) + "]"@,
        None => "null"@,
    }) + ",\"final\":"@ + json_optional(
        match run.phase3 {
            Some(p) => optional_view(p.final_attempt_id),
            None => None,
        },
    ) + "}"@
}

/// The digest of what a run delivers. `candidates` are the identifiers, differences and checks of its
/// candidates as JSON.
pub fn delivery(run: &RunRecord, candidates: &str) -> (r: String)
    ensures
        r@ == hash_text(encode_utf8(delivery_text(*run, candidates@))),
{
    let mut text = "{\"baseline\":".to_owned();
    text.push_str(json_string_of(run.baseline_commit.as_str()).as_str());
    text.push_str(",\"candidates\":");
    text.push_str(candidates);
    text.push_str(",\"contributors\":");
    let mut last: Option<&str> = None;
    match &run.phase3 {
        Some(p) => {
            text.push_str("[");
            put_items(&mut text, &p.contributing_attempts);
            text.push_str("]");
            if let Some(id) = &p.final_attempt_id {
                last = Some(id.as_str());
            }
        },
        None => text.push_str("null"),
    }
    text.push_str(",\"final\":");
    text.push_str(write_optional(last).as_str());
    text.push_str("}");
    assert(text@ =~= delivery_text(*run, candidates@));
    text_hash(text.as_str())
}

/// The word for what kind of goals the store holds.
pub fn domain_word(fixture: bool) -> (r: &'static str)
    ensures
        r@ == (if fixture {
            "synthetic_fixture"@
        } else {
            "ordinary_private"@
        }),
{
    if fixture {
        "synthetic_fixture"
    } else {
        "ordinary_private"
    }
}

} // verus!
