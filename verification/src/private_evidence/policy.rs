//! How private evidence changes a decision: approved trials, annotations and policy changes.

use vstd::prelude::*;

use crate::private_evidence::{
    base_policy, begins_trial, find_only_cohort, next_revision_takes_force, only_cohort,
    parameters_in_force, proposal, revision_in_force, rule_parameters, same_context, same_counts,
    same_key, screening, trial_rule, Annotation, Behavior, ContextKey, Counts, DecisionEvidence, Feedback,
    PolicyTransition, Proposal, Screening, StoredAnnotation, Summary, WINDOW_MICROS,
};

use crate::text::{
    begins_with, decimal, decimal_of, has_prefix, holds, holds_text, optional_str, optional_view,
    same, same_optional, show, shown, texts, trim, trimmed,
};
use crate::text_map::TextMap;
use crate::digest::{json_string, json_string_of};
use crate::record::{ReviewState, behind};
use crate::router::{
    AllocationAlternative, AllocationDecision, ResourceChoice, ResourceConfig, ResourceProfile,
    ResourceTier, TaskFeatures, ineligibility, request_of, select_resource, selection_result,
    some_eligible,
};

verus! {

/// Why a stored proposal cannot be used, if it cannot. `unchanged` says whether its content still
/// has the digest it is stored under.
pub open spec fn proposal_is_sound(p: Proposal, unchanged: bool) -> bool {
    &&& unchanged
    &&& p.version == 1
    &&& p.rule@ == trial_rule()
    &&& p.context.base_policy@ == base_policy()
    &&& p.parameters == parameters_in_force()
}

/// Refuses a stored proposal whose content changed or belongs to another version of the rule.
pub fn load_proposal(p: &Proposal, unchanged: bool) -> (r: Result<(), String>)
    ensures
        r is Ok <==> proposal_is_sound(*p, unchanged),
        r matches Err(e) ==> e@ == "invalid proposal content/version"@,
{
    if unchanged && p.version == 1 && same(p.rule.as_str(), "private-quality-trial-v1") && same(
        p.context.base_policy.as_str(),
        "allocation-portfolio-v3",
    ) && p.parameters == rule_parameters() {
        Ok(())
    } else {
        Err("invalid proposal content/version".to_owned())
    }
}

/// What the rows say now of a goal that a proposal refers to.
#[derive(Debug, Clone, PartialEq, Eq)]
pub struct ReferenceFacts {
    pub annotation_sequence: Option<u64>,
    pub feedback_id: Option<String>,
    pub delivery: String,
    pub facts: String,
    pub created_at: i64,
    pub context: Option<ContextKey>,
}

/// Whether what a reference was counted by still holds.
pub open spec fn still_holds(
    p: Proposal,
    i: int,
    facts: Option<ReferenceFacts>,
    now: int,
) -> bool {
    match facts {
        None => false,
        Some(f) => {
            &&& f.annotation_sequence == Some(p.references@[i].annotation_sequence)
            &&& p.references@[i].feedback_id@ == (match f.feedback_id {
                Some(id) => id@,
                None => ""@,
            })
            &&& f.delivery@ == p.references@[i].delivery@
            &&& f.facts@ == p.references@[i].facts@
            &&& f.created_at >= now - WINDOW_MICROS
            &&& match f.context {
                Some(c) => same_key(c, p.context),
                None => false,
            }
        },
    }
}

/// Whether the evidence of a proposal is recent, not empty and unchanged.
pub open spec fn evidence_holds(
    p: Proposal,
    facts: Seq<Option<ReferenceFacts>>,
    now: int,
) -> bool {
    &&& now - WINDOW_MICROS <= p.cutoff <= now
    &&& p.references@.len() > 0
    &&& forall|i: int|
        0 <= i < p.references@.len() ==> still_holds(p, i, #[trigger] facts[i], now)
}

/// Whether the evidence of a proposal still holds. `facts` says, for each of its references in
/// order, what the rows say now.
pub fn valid_references(p: &Proposal, facts: &Vec<Option<ReferenceFacts>>, now: i64) -> (r: bool)
    requires
        facts@.len() == p.references@.len(),
        now >= i64::MIN + WINDOW_MICROS,
    ensures
        r == evidence_holds(*p, facts@, now as int),
{
    let since: i64 = now - WINDOW_MICROS;
    if p.cutoff > now || p.cutoff < since {
        return false;
    }
    let mut i: usize = 0;
    while i < p.references.len()
        invariant
            i <= p.references.len(),
            facts@.len() == p.references@.len(),
            since == now - WINDOW_MICROS,
            forall|k: int| 0 <= k < i ==> still_holds(*p, k, #[trigger] facts@[k], now as int),
        decreases p.references.len() - i,
    {
        let reference = &p.references[i];
        let holds = match &facts[i] {
            None => false,
            Some(f) => {
                let sequence = match f.annotation_sequence {
                    Some(n) => n == reference.annotation_sequence,
                    None => false,
                };
                let reviewed = match &f.feedback_id {
                    Some(id) => same(reference.feedback_id.as_str(), id.as_str()),
                    None => same(reference.feedback_id.as_str(), ""),
                };
                let alike = match &f.context {
                    Some(c) => same_context(c, &p.context),
                    None => false,
                };
                sequence && reviewed && same(f.delivery.as_str(), reference.delivery.as_str())
                    && same(f.facts.as_str(), reference.facts.as_str()) && f.created_at >= since
                    && alike
            },
        };
        if !holds {
            assert(!still_holds(*p, i as int, facts@[i as int], now as int));
            return false;
        }
        i += 1;
    }
    p.references.len() > 0
}

/// The proposal that a policy made active, as it is stored.
#[derive(Debug, Clone, PartialEq, Eq)]
pub struct ActiveProposal {
    pub proposal: Proposal,
    pub status: String,
    /// Whether its evidence still holds.
    pub references_valid: bool,
}

/// What an active proposal does to a decision.
pub ghost enum Preference {
    Unaffected,
    Stale,
    Unavailable,
    Promoted(int),
}

/// Whether an alternative is the approved target.
pub open spec fn is_target(alt: AllocationAlternative, b: Behavior, key: Seq<char>) -> bool {
    alt.eligible && b.key@ == key && alt.choice.tier != ResourceTier::Light
}

/// The first alternative from `from` on that is the approved target.
pub open spec fn first_target(
    alternatives: Seq<AllocationAlternative>,
    behaviors: Seq<Behavior>,
    key: Seq<char>,
    from: int,
) -> Option<int>
    decreases alternatives.len() - from,
{
    if from < 0 || from >= alternatives.len() || from >= behaviors.len() {
        None
    } else if is_target(alternatives[from], behaviors[from], key) {
        Some(from)
    } else {
        first_target(alternatives, behaviors, key, from + 1)
    }
}

/// What an active proposal does to a decision. `base_behavior` is the behaviour of the resource
/// that the decision selected, `explicit` whether the caller fixed the resource.
pub open spec fn preference(
    active: Option<ActiveProposal>,
    decision: AllocationDecision,
    behaviors: Seq<Behavior>,
    base_behavior: Seq<char>,
    ctx: ContextKey,
    summarized: bool,
    explicit: bool,
) -> Preference {
    match active {
        None => Preference::Unaffected,
        Some(a) => if a.status@ != "active"@ {
            Preference::Unaffected
        } else if !a.references_valid {
            Preference::Stale
        } else if same_key(a.proposal.context, ctx) && summarized && !explicit && base_behavior
            == a.proposal.source_behavior@ {
            match first_target(
                decision.alternatives@,
                behaviors,
                a.proposal.target_behavior@,
                0,
            ) {
                Some(i) => Preference::Promoted(i),
                None => Preference::Unavailable,
            }
        } else {
            Preference::Unaffected
        },
    }
}

/// The reason that a decision records for what evidence did.
pub open spec fn evidence_reason(
    preference: Preference,
    summary: Option<Summary>,
    shadow: bool,
    decision: AllocationDecision,
    behaviors: Seq<Behavior>,
) -> Seq<char> {
    match preference {
        Preference::Stale => "active_evidence_stale_base_fallback"@,
        Preference::Unavailable => "approved_target_unavailable_base_fallback"@,
        Preference::Promoted(_) => "observation_only"@,
        Preference::Unaffected => match summary {
            None => "analytics_unavailable_base_fallback"@,
            Some(s) => if shadow {
                match screening(s, decision, behaviors) {
                    Screening::Abstain(reason) => reason,
                    Screening::Trial { .. } => "repeated_quality_rejections_trial_only"@,
                    Screening::Broken => Seq::empty(),
                }
            } else {
                "observation_only"@
            },
        },
    }
}

/// Whether screening is asked for and fails.
pub open spec fn screening_fails(
    summary: Option<Summary>,
    shadow: bool,
    decision: AllocationDecision,
    behaviors: Seq<Behavior>,
) -> bool {
    shadow && summary is Some && screening(summary->0, decision, behaviors) is Broken
}

/// Whether `p` is what screening in shadow mode proposes.
pub open spec fn screened(
    p: Option<Proposal>,
    summary: Option<Summary>,
    shadow: bool,
    decision: AllocationDecision,
    behaviors: Seq<Behavior>,
) -> bool {
    if shadow && summary is Some {
        match screening(summary->0, decision, behaviors) {
            Screening::Trial { base, cohort, alternative } => p is Some && begins_trial(
                p->0,
                summary->0,
                decision,
                behaviors,
                base,
                cohort,
                alternative,
            ),
            _ => p is None,
        }
    } else {
        p is None
    }
}

/// What a decision becomes, what is recorded of it and what is to be stored.
#[derive(Debug, Clone, PartialEq, Eq)]
pub struct Selection {
    pub decision: AllocationDecision,
    /// Whether the active proposal is to be marked stale.
    pub stale: bool,
    /// The proposal to store.
    pub proposed: Option<Proposal>,
}

/// Whether two maps hold the same counts under the same keys.
pub open spec fn same_cohorts(a: TextMap<Counts>, b: TextMap<Counts>) -> bool {
    &&& a.entries@.len() == b.entries@.len()
    &&& forall|i: int|
        0 <= i < a.entries@.len() ==> (#[trigger] a.entries@[i]).0 == b.entries@[i].0 && same_counts(
            a.entries@[i].1,
            b.entries@[i].1,
        )
}

fn copy_cohorts(a: &TextMap<Counts>) -> (r: TextMap<Counts>)
    ensures
        same_cohorts(r, *a),
{
    let mut entries: Vec<(String, Counts)> = Vec::new();
    let mut i: usize = 0;
    while i < a.entries.len()
        invariant
            i <= a.entries.len(),
            entries@.len() == i,
            forall|k: int|
                0 <= k < i ==> (#[trigger] entries@[k]).0 == a.entries@[k].0 && same_counts(
                    entries@[k].1,
                    a.entries@[k].1,
                ),
        decreases a.entries.len() - i,
    {
        entries.push((a.entries[i].0.clone(), a.entries[i].1.copied()));
        i += 1;
    }
    TextMap { entries }
}

/// The policy version that a decision under a private revision carries.
pub open spec fn private_version(version: Seq<char>, revision: u64) -> Seq<char> {
    if revision > 0 {
        base_policy() + "/private-"@ + decimal(revision as nat)
    } else {
        version
    }
}

/// What the recorded evidence of a decision says.
pub open spec fn records(
    e: DecisionEvidence,
    decision: AllocationDecision,
    ctx: ContextKey,
    shadow: bool,
    revision: u64,
    preference: Preference,
    behaviors: Seq<Behavior>,
    base_behavior: Seq<char>,
    summary: Option<Summary>,
    proposed: Option<Proposal>,
    now: i64,
) -> bool {
    &&& e.version == 1
    &&& e.context == ctx
    &&& e.behaviors@ == behaviors
    &&& e.selected_behavior@ == (match preference {
        Preference::Promoted(i) => behaviors[i].key@,
        _ => base_behavior,
    })
    &&& e.cutoff == now
    &&& e.snapshot_hash@ == (match summary {
        Some(s) => s.snapshot_hash@,
        None => Seq::empty(),
    })
    &&& e.annotation_revision == (match summary {
        Some(s) => s.annotation_revision,
        None => 0,
    })
    &&& e.base_choice == decision.selected
    &&& e.proposed_choice == (match proposed {
        Some(p) => Some(p.target),
        None => None,
    })
    &&& e.proposal_id is None
    &&& e.policy_revision == revision
    &&& e.mode@ == (if preference is Promoted {
        "promoted"@
    } else if shadow {
        "shadow"@
    } else {
        "default"@
    })
    &&& e.reason@ == evidence_reason(preference, summary, shadow, decision, behaviors)
    &&& match (summary, e.counts) {
        (Some(s), Some(c)) => same_counts(c, s.counts),
        (None, None) => true,
        _ => false,
    }
    &&& match (summary, e.cohorts) {
        (Some(s), Some(c)) => same_cohorts(c, s.resources),
        (None, None) => true,
        _ => false,
    }
}

/// What a selection makes of a decision.
pub open spec fn selects(
    s: Selection,
    decision: AllocationDecision,
    ctx: ContextKey,
    shadow: bool,
    revision: u64,
    preference: Preference,
    behaviors: Seq<Behavior>,
    base_behavior: Seq<char>,
    summary: Option<Summary>,
    now: i64,
) -> bool {
    &&& s.decision.version == decision.version
    &&& s.decision.task_features == decision.task_features
    &&& s.decision.capability == decision.capability
    &&& s.decision.alternatives == decision.alternatives
    &&& s.decision.policy_version@ == private_version(decision.policy_version@, revision)
    &&& s.decision.selected == (match preference {
        Preference::Promoted(i) => decision.alternatives@[i].choice,
        _ => decision.selected,
    })
    &&& s.decision.reason@ == (match preference {
        Preference::Promoted(_) =>
            "Using an explicitly approved private-evidence trial preference."@,
        _ => decision.reason@,
    })
    &&& s.stale == (preference is Stale)
    &&& screened(s.proposed, summary, shadow, decision, behaviors)
    &&& s.decision.private_evidence matches Some(e) && records(
        e,
        decision,
        ctx,
        shadow,
        revision,
        preference,
        behaviors,
        base_behavior,
        summary,
        s.proposed,
        now,
    )
}

fn find_target(
    alternatives: &Vec<AllocationAlternative>,
    behaviors: &Vec<Behavior>,
    key: &str,
) -> (r: Option<usize>)
    ensures
        match r {
            Some(i) => first_target(alternatives@, behaviors@, key@, 0) == Some(i as int) && i
                < alternatives.len() && i < behaviors.len(),
            None => first_target(alternatives@, behaviors@, key@, 0) is None,
        },
{
    let mut i: usize = 0;
    while i < alternatives.len() && i < behaviors.len()
        invariant
            i <= alternatives.len(),
            i <= behaviors.len(),
            first_target(alternatives@, behaviors@, key@, 0) == first_target(
                alternatives@,
                behaviors@,
                key@,
                i as int,
            ),
        decreases alternatives.len() - i,
    {
        if alternatives[i].eligible && same(behaviors[i].key.as_str(), key)
            && alternatives[i].choice.tier != ResourceTier::Light {
            return Some(i);
        }
        i += 1;
    }
    None
}

/// Lets private evidence act on a decision: an approved trial may change the resource, screening in
/// shadow mode may propose one, and what was known is recorded. A grant that is bound to another
/// policy revision is refused. The identifier of a proposal is recorded once it is stored.
pub fn select(
    decision: AllocationDecision,
    ctx: &ContextKey,
    shadow: bool,
    revision: u64,
    bound: Option<u64>,
    active: Option<&ActiveProposal>,
    behaviors: Vec<Behavior>,
    base_behavior: &str,
    summary: Option<&Summary>,
    explicit: bool,
    now: i64,
) -> (r: Result<Selection, String>)
    ensures
        ({
            let given = match active {
                Some(a) => Some(*a),
                None => None,
            };
            let counted = match summary {
                Some(s) => Some(*s),
                None => None,
            };
            let effect = preference(
                given,
                decision,
                behaviors@,
                base_behavior@,
                *ctx,
                summary is Some,
                explicit,
            );
            if bound is Some && bound->0 != revision {
                r matches Err(e) && e@
                    == "authorization_required: private policy changed at selection; issue a new grant"@
            } else if screening_fails(counted, shadow, decision, behaviors@) {
                r matches Err(e) && e@ == "missing selected behavior"@
            } else {
                r matches Ok(s) && selects(
                    s,
                    decision,
                    *ctx,
                    shadow,
                    revision,
                    effect,
                    behaviors@,
                    base_behavior@,
                    counted,
                    now,
                )
            }
        }),
{
    if let Some(bound) = bound {
        if bound != revision {
            return Err(
                "authorization_required: private policy changed at selection; issue a new grant".to_owned(),
            );
        }
    }
    let ghost given = match active {
        Some(a) => Some(*a),
        None => None,
    };
    let ghost counted = match summary {
        Some(s) => Some(*s),
        None => None,
    };
    let ghost effect = preference(
        given,
        decision,
        behaviors@,
        base_behavior@,
        *ctx,
        summary is Some,
        explicit,
    );
    let mut stale = false;
    let mut unavailable = false;
    let mut promoted: Option<usize> = None;
    if let Some(a) = active {
        if same(a.status.as_str(), "active") {
            if !a.references_valid {
                stale = true;
            } else if same_context(&a.proposal.context, ctx) && summary.is_some() && !explicit && same(
                base_behavior,
                a.proposal.source_behavior.as_str(),
            ) {
                match find_target(
                    &decision.alternatives,
                    &behaviors,
                    a.proposal.target_behavior.as_str(),
                ) {
                    Some(i) => {
                        promoted = Some(i);
                    },
                    None => {
                        unavailable = true;
                    },
                }
            }
        }
    }
    assert(stale == (effect is Stale));
    assert(unavailable == (effect is Unavailable));
    assert(match promoted {
        Some(i) => effect == Preference::Promoted(i as int),
        None => !(effect is Promoted),
    });
    let mut proposed: Option<Proposal> = None;
    let mut screened_reason: Option<String> = None;
    if let Some(s) = summary {
        if shadow {
            match proposal(s, &decision, &behaviors) {
                Err(e) => {
                    return Err(e);
                },
                Ok((p, why)) => {
                    proposed = p;
                    screened_reason = Some(why);
                },
            }
        }
    }
    let reason = if stale {
        "active_evidence_stale_base_fallback".to_owned()
    } else if unavailable {
        "approved_target_unavailable_base_fallback".to_owned()
    } else if summary.is_none() {
        "analytics_unavailable_base_fallback".to_owned()
    } else if promoted.is_some() {
        "observation_only".to_owned()
    } else {
        match screened_reason {
            Some(why) => why,
            None => "observation_only".to_owned(),
        }
    };
    let mode = if promoted.is_some() {
        "promoted".to_owned()
    } else if shadow {
        "shadow".to_owned()
    } else {
        "default".to_owned()
    };
    let selected_behavior = match promoted {
        Some(i) => behaviors[i].key.clone(),
        None => base_behavior.to_owned(),
    };
    let mut snapshot_hash = String::new();
    let mut annotation_revision: u64 = 0;
    let mut counts: Option<Counts> = None;
    let mut cohorts: Option<TextMap<Counts>> = None;
    if let Some(s) = summary {
        snapshot_hash = s.snapshot_hash.clone();
        annotation_revision = s.annotation_revision;
        counts = Some(s.counts.copied());
        cohorts = Some(copy_cohorts(&s.resources));
    }
    let proposed_choice = match &proposed {
        Some(p) => Some(p.target.copied()),
        None => None,
    };
    let evidence = DecisionEvidence {
        version: 1,
        context: ctx.copied(),
        behaviors,
        selected_behavior,
        cutoff: now,
        snapshot_hash,
        annotation_revision,
        base_choice: decision.selected.copied(),
        proposed_choice,
        proposal_id: None,
        policy_revision: revision,
        mode,
        reason,
        counts,
        cohorts,
    };
    let mut policy_version = decision.policy_version;
    if revision > 0 {
        policy_version = "allocation-portfolio-v3".to_owned();
        policy_version.push_str("/private-");
        policy_version.push_str(decimal_of(revision).as_str());
    }
    let mut selected = decision.selected;
    let mut why = decision.reason;
    if let Some(i) = promoted {
        selected = decision.alternatives[i].choice.copied();
        why = "Using an explicitly approved private-evidence trial preference.".to_owned();
    }
    Ok(
        Selection {
            decision: AllocationDecision {
                version: decision.version,
                policy_version,
                task_features: decision.task_features,
                selected,
                reason: why,
                capability: decision.capability,
                alternatives: decision.alternatives,
                private_evidence: Some(evidence),
            },
            stale,
            proposed,
        },
    )
}

/// Records the identifier under which the proposal of a decision was stored.
pub fn name_proposal(evidence: &mut DecisionEvidence, id: String)
    ensures
        *final(evidence) == (DecisionEvidence { proposal_id: Some(id), ..*old(evidence) }),
{
    evidence.proposal_id = Some(id);
}

proof fn first_target_is_a_target(
    alternatives: Seq<AllocationAlternative>,
    behaviors: Seq<Behavior>,
    key: Seq<char>,
    from: int,
)
    ensures
        first_target(alternatives, behaviors, key, from) matches Some(i) ==> 0 <= i
            < alternatives.len() && i < behaviors.len() && is_target(
            alternatives[i],
            behaviors[i],
            key,
        ),
    decreases alternatives.len() - from,
{
    if 0 <= from < alternatives.len() && from < behaviors.len() {
        first_target_is_a_target(alternatives, behaviors, key, from + 1);
    }
}

/// Evidence changes the resource of a decision only by an approved proposal whose evidence holds, of
/// the very context, when the caller fixed nothing, and then only to an alternative that may run.
pub proof fn only_approved_trials_change_the_resource(
    s: Selection,
    active: Option<ActiveProposal>,
    decision: AllocationDecision,
    ctx: ContextKey,
    shadow: bool,
    revision: u64,
    behaviors: Seq<Behavior>,
    base_behavior: Seq<char>,
    summary: Option<Summary>,
    explicit: bool,
    now: i64,
)
    requires
        selects(
            s,
            decision,
            ctx,
            shadow,
            revision,
            preference(
                active,
                decision,
                behaviors,
                base_behavior,
                ctx,
                summary is Some,
                explicit,
            ),
            behaviors,
            base_behavior,
            summary,
            now,
        ),
        s.decision.selected != decision.selected,
    ensures
        !explicit,
        active matches Some(a) && a.status@ == "active"@ && a.references_valid && same_key(
            a.proposal.context,
            ctx,
        ),
        exists|i: int|
            0 <= i < decision.alternatives@.len() && (
            #[trigger] decision.alternatives@[i]).eligible && s.decision.selected
                == decision.alternatives@[i].choice,
{
    first_target_is_a_target(
        decision.alternatives@,
        behaviors,
        active->0.proposal.target_behavior@,
        0,
    );
}

/// Screening in shadow mode never changes the resource of a decision by itself.
pub proof fn shadow_mode_changes_no_resource(
    s: Selection,
    decision: AllocationDecision,
    ctx: ContextKey,
    shadow: bool,
    revision: u64,
    behaviors: Seq<Behavior>,
    base_behavior: Seq<char>,
    summary: Option<Summary>,
    explicit: bool,
    now: i64,
)
    requires
        selects(
            s,
            decision,
            ctx,
            shadow,
            revision,
            preference(
                None,
                decision,
                behaviors,
                base_behavior,
                ctx,
                summary is Some,
                explicit,
            ),
            behaviors,
            base_behavior,
            summary,
            now,
        ),
    ensures
        s.decision.selected == decision.selected,
        s.decision.reason@ == decision.reason@,
{
}

/// An annotation that is to be confirmed, with the facts it was prepared from.
#[derive(Debug, Clone, PartialEq, Eq)]
pub struct AnnotationRequest {
    pub run_id: String,
    pub state_revision: u64,
    pub feedback_id: Option<String>,
    pub annotation_sequence: Option<u64>,
    pub annotation: Annotation,
}

/// Where work can come from.
pub open spec fn is_origin(s: Seq<char>) -> bool {
    s == "ordinary"@ || s == "synthetic"@ || s == "scripted_smoke"@ || s == "unknown"@
}

/// Where a review can come from.
pub open spec fn is_review(s: Seq<char>) -> bool {
    s == "human"@ || s == "scripted"@ || s == "machine"@ || s == "unknown"@ || s == "synthetic"@
}

/// Whether a stored review and the state of a goal agree that a person decided.
pub open spec fn decided(feedback: Option<Feedback>, review: ReviewState) -> bool {
    match feedback {
        Some(f) => f.outcome@ == "accepted"@ && review == ReviewState::Accepted || f.outcome@
            == "rejected"@ && review == ReviewState::Rejected,
        None => false,
    }
}

/// Whether work was an experiment.
pub open spec fn is_experiment(origin: Seq<char>) -> bool {
    origin == "synthetic"@ || origin == "scripted_smoke"@
}

/// Whether an annotation may follow an earlier one: an experiment stays what it was.
pub open spec fn keeps_provenance(old_origin: Option<Seq<char>>, origin: Seq<char>) -> bool {
    match old_origin {
        Some(was) => is_experiment(was) ==> origin == was,
        None => true,
    }
}

/// The origin that the latest annotation states.
pub open spec fn stated_origin(old: Option<StoredAnnotation>) -> Option<Seq<char>> {
    match old {
        Some(a) => Some(a.annotation.origin@),
        None => None,
    }
}

/// Why an annotation cannot be prepared, if it cannot.
pub open spec fn annotation_refusal(
    origin: Seq<char>,
    review: Seq<char>,
    repair: Option<u64>,
    feedback: Option<Feedback>,
    state: ReviewState,
    old: Option<StoredAnnotation>,
) -> Option<Seq<char>> {
    if !(is_origin(origin) && is_review(review)) {
        Some("invalid provenance annotation"@)
    } else if repair is Some && repair->0 > 10080 {
        Some("repair effort exceeds one week"@)
    } else if review == "human"@ && !(origin == "ordinary"@ && decided(feedback, state)) {
        Some(
            "human attestation requires ordinary work and an existing acceptance/rejection revision"@,
        )
    } else if !keeps_provenance(stated_origin(old), origin) {
        Some("experiment provenance cannot become ordinary work"@)
    } else {
        None
    }
}

fn known_origin(s: &str) -> (r: bool)
    ensures
        r == is_origin(s@),
{
    same(s, "ordinary") || same(s, "synthetic") || same(s, "scripted_smoke") || same(s, "unknown")
}

fn known_review(s: &str) -> (r: bool)
    ensures
        r == is_review(s@),
{
    same(s, "human") || same(s, "scripted") || same(s, "machine") || same(s, "unknown") || same(
        s,
        "synthetic",
    )
}

fn person_decided(feedback: Option<&Feedback>, review: ReviewState) -> (r: bool)
    ensures
        r == decided(behind(feedback), review),
{
    match feedback {
        Some(f) => same(f.outcome.as_str(), "accepted") && review == ReviewState::Accepted || same(
            f.outcome.as_str(),
            "rejected",
        ) && review == ReviewState::Rejected,
        None => false,
    }
}

/// Refuses an annotation that would turn an experiment into something else.
pub fn validate_provenance(old: Option<&StoredAnnotation>, origin: &str) -> (r: Result<(), String>)
    ensures
        r is Ok <==> keeps_provenance(stated_origin(behind(old)), origin@),
        r matches Err(e) ==> e@ == "experiment provenance cannot become ordinary work"@,
{
    if let Some(a) = old {
        let was = a.annotation.origin.as_str();
        if (same(was, "synthetic") || same(was, "scripted_smoke")) && !same(origin, was) {
            return Err("experiment provenance cannot become ordinary work".to_owned());
        }
    }
    Ok(())
}

/// Prepares an annotation of a goal for confirmation. `delivery` stands for what the goal delivered,
/// `state` is its review, `feedback` its latest stored review and `old` its latest annotation.
pub fn prepare_annotation(
    run_id: &str,
    state_revision: u64,
    origin: &str,
    review: &str,
    repair: Option<u64>,
    actor: &str,
    delivery: &str,
    state: ReviewState,
    feedback: Option<&Feedback>,
    old: Option<&StoredAnnotation>,
) -> (r: Result<AnnotationRequest, String>)
    ensures
        match annotation_refusal(
            origin@,
            review@,
            repair,
            behind(feedback),
            state,
            behind(old),
        ) {
            Some(reason) => r matches Err(e) && e@ == reason,
            None => r matches Ok(q) && {
                &&& q.run_id@ == run_id@
                &&& q.state_revision == state_revision
                &&& q.feedback_id == (match feedback {
                    Some(f) => Some(f.id),
                    None => None,
                })
                &&& q.annotation_sequence == (match old {
                    Some(a) => Some(a.sequence),
                    None => None,
                })
                &&& q.annotation.origin@ == origin@
                &&& q.annotation.review@ == review@
                &&& q.annotation.delivery@ == delivery@
                &&& q.annotation.actor@ == actor@
                &&& q.annotation.repair_minutes == repair
            },
        },
{
    if !(known_origin(origin) && known_review(review)) {
        return Err("invalid provenance annotation".to_owned());
    }
    if let Some(minutes) = repair {
        if minutes > 10080 {
            return Err("repair effort exceeds one week".to_owned());
        }
    }
    if same(review, "human") && !(same(origin, "ordinary") && person_decided(feedback, state)) {
        return Err(
            "human attestation requires ordinary work and an existing acceptance/rejection revision".to_owned(),
        );
    }
    match validate_provenance(old, origin) {
        Err(e) => {
            return Err(e);
        },
        Ok(()) => {},
    }
    let feedback_id = match feedback {
        Some(f) => Some(f.id.clone()),
        None => None,
    };
    let annotation_sequence = match old {
        Some(a) => Some(a.sequence),
        None => None,
    };
    Ok(
        AnnotationRequest {
            run_id: run_id.to_owned(),
            state_revision,
            feedback_id,
            annotation_sequence,
            annotation: Annotation {
                origin: origin.to_owned(),
                review: review.to_owned(),
                delivery: delivery.to_owned(),
                actor: actor.to_owned(),
                repair_minutes: repair,
            },
        },
    )
}

/// Whether a prepared review is of the goal as it was displayed.
pub fn prepare_review_annotation(
    request: AnnotationRequest,
    displayed_revision: u64,
    displayed_delivery: &str,
) -> (r: Result<AnnotationRequest, String>)
    ensures
        if request.state_revision == displayed_revision && request.annotation.delivery@
            == displayed_delivery@ {
            r == Ok::<AnnotationRequest, String>(request)
        } else {
            r matches Err(e) && e@ == "review changed; inspect the current result before attesting"@
        },
{
    if request.state_revision == displayed_revision && same(
        request.annotation.delivery.as_str(),
        displayed_delivery,
    ) {
        Ok(request)
    } else {
        Err("review changed; inspect the current result before attesting".to_owned())
    }
}

/// Whether two annotations state the same.
pub open spec fn same_statement(a: Annotation, b: Annotation) -> bool {
    &&& a.origin@ == b.origin@
    &&& a.review@ == b.review@
    &&& a.delivery@ == b.delivery@
    &&& a.actor@ == b.actor@
    &&& a.repair_minutes == b.repair_minutes
}

/// Whether the latest annotation already states what is requested.
pub open spec fn already_stated(old: Option<StoredAnnotation>, request: AnnotationRequest) -> bool {
    match old {
        Some(a) => optional_view(a.feedback_id) == optional_view(request.feedback_id) && same_statement(
            a.annotation,
            request.annotation,
        ),
        None => false,
    }
}

/// Why a confirmed annotation is refused, if it is.
pub open spec fn commit_refusal(
    request: AnnotationRequest,
    actor: Seq<char>,
    revision: u64,
    delivery: Seq<char>,
    feedback_id: Option<Seq<char>>,
    old: Option<StoredAnnotation>,
) -> Option<Seq<char>> {
    if actor != request.annotation.actor@ {
        Some("owner changed during attestation"@)
    } else if revision != request.state_revision || delivery != request.annotation.delivery@
        || feedback_id != optional_view(request.feedback_id) {
        Some("review changed during attestation; no annotation recorded"@)
    } else if !keeps_provenance(stated_origin(old), request.annotation.origin@) {
        Some("experiment provenance cannot become ordinary work"@)
    } else if !already_stated(old, request) && request.annotation_sequence != (match old {
        Some(a) => Some(a.sequence),
        None => None,
    }) {
        Some("provenance changed during attestation; confirm again"@)
    } else {
        None
    }
}

/// Decides whether a confirmed annotation is recorded: `Ok(false)` where the latest one already
/// states the same, so that confirming twice adds no revision.
pub fn commit_annotation(
    request: &AnnotationRequest,
    actor: &str,
    revision: u64,
    delivery: &str,
    feedback_id: Option<&str>,
    old: Option<&StoredAnnotation>,
) -> (r: Result<bool, String>)
    ensures
        match commit_refusal(
            *request,
            actor@,
            revision,
            delivery@,
            optional_str(feedback_id),
            behind(old),
        ) {
            Some(reason) => r matches Err(e) && e@ == reason,
            None => r == Ok::<bool, String>(!already_stated(behind(old), *request)),
        },
{
    if !same(actor, request.annotation.actor.as_str()) {
        return Err("owner changed during attestation".to_owned());
    }
    if revision != request.state_revision || !same(delivery, request.annotation.delivery.as_str())
        || !same_optional(&request.feedback_id, feedback_id) {
        return Err("review changed during attestation; no annotation recorded".to_owned());
    }
    match validate_provenance(old, request.annotation.origin.as_str()) {
        Err(e) => {
            return Err(e);
        },
        Ok(()) => {},
    }
    if let Some(a) = old {
        let stored = match &a.feedback_id {
            Some(id) => Some(id.as_str()),
            None => None,
        };
        let minutes = match (a.annotation.repair_minutes, request.annotation.repair_minutes) {
            (Some(x), Some(y)) => x == y,
            (None, None) => true,
            _ => false,
        };
        if same_optional(&request.feedback_id, stored) && same(
            a.annotation.origin.as_str(),
            request.annotation.origin.as_str(),
        ) && same(a.annotation.review.as_str(), request.annotation.review.as_str()) && same(
            a.annotation.delivery.as_str(),
            request.annotation.delivery.as_str(),
        ) && same(a.annotation.actor.as_str(), request.annotation.actor.as_str()) && minutes {
            return Ok(false);
        }
    }
    let unchanged = match (old, request.annotation_sequence) {
        (Some(a), Some(n)) => a.sequence == n,
        (None, None) => true,
        _ => false,
    };
    if unchanged {
        Ok(true)
    } else {
        Err("provenance changed during attestation; confirm again".to_owned())
    }
}

/// An experiment never becomes ordinary work: whatever is recorded after it keeps its origin.
pub proof fn experiments_stay_experiments(
    request: AnnotationRequest,
    actor: Seq<char>,
    revision: u64,
    delivery: Seq<char>,
    feedback_id: Option<Seq<char>>,
    old: StoredAnnotation,
)
    requires
        commit_refusal(request, actor, revision, delivery, feedback_id, Some(old)) is None,
        is_experiment(old.annotation.origin@),
    ensures
        request.annotation.origin@ == old.annotation.origin@,
{
}

/// Confirming a recorded annotation again records nothing: it is accepted, and the latest one states
/// it already.
pub proof fn confirming_twice_records_once(
    request: AnnotationRequest,
    actor: Seq<char>,
    revision: u64,
    delivery: Seq<char>,
    feedback_id: Option<Seq<char>>,
    old: Option<StoredAnnotation>,
    sequence: u64,
)
    requires
        commit_refusal(request, actor, revision, delivery, feedback_id, old) is None,
    ensures
        ({
            let recorded = StoredAnnotation {
                sequence,
                feedback_id: request.feedback_id,
                annotation: request.annotation,
            };
            &&& commit_refusal(request, actor, revision, delivery, feedback_id, Some(recorded)) is None
            &&& already_stated(Some(recorded), request)
        }),
{
}

/// A person's judgment is attested only of ordinary work that a person accepted or rejected.
pub proof fn human_reviews_are_decided(
    origin: Seq<char>,
    repair: Option<u64>,
    feedback: Option<Feedback>,
    state: ReviewState,
    old: Option<StoredAnnotation>,
)
    requires
        annotation_refusal(origin, "human"@, repair, feedback, state, old) is None,
    ensures
        origin == "ordinary"@,
        state == ReviewState::Accepted || state == ReviewState::Rejected,
        feedback is Some,
{
}

/// What is known of a proposal that is to become active.
#[derive(Debug, Clone, PartialEq, Eq)]
pub struct TransitionFacts {
    pub proposal: Proposal,
    pub status: String,
    /// The context that the source gives now for the same features.
    pub context: ContextKey,
    pub references_valid: bool,
    /// The behaviours of the resources that a trial could run on now.
    pub trial_behaviors: Vec<String>,
    /// The behaviour of the resource that is selected now without a trial.
    pub base_behavior: String,
    pub summary: Summary,
}

/// Whether the only cohort of a behaviour has these counts now.
pub open spec fn counts_stand(summary: Summary, key: Seq<char>, counts: Counts) -> bool {
    &&& !summary.truncated
    &&& only_cohort(summary.resources, key) matches Some(i) && same_tallies(
        summary.resources.entries@[i].1,
        counts,
    )
}

/// Whether two maps hold the same numbers under the same keys, in the same order.
pub open spec fn same_numbers(a: TextMap<u64>, b: TextMap<u64>) -> bool {
    &&& a.entries@.len() == b.entries@.len()
    &&& forall|i: int|
        0 <= i < a.entries@.len() ==> (#[trigger] a.entries@[i]).0@ == b.entries@[i].0@
            && a.entries@[i].1 == b.entries@[i].1
}

/// Whether two counts are equal.
pub open spec fn same_tallies(a: Counts, b: Counts) -> bool {
    &&& a.goals == b.goals
    &&& a.attempts == b.attempts
    &&& a.launched == b.launched
    &&& a.launch_unknown == b.launch_unknown
    &&& a.prelaunch == b.prelaunch
    &&& a.policy_chains == b.policy_chains
    &&& a.continuations == b.continuations
    &&& same_numbers(a.first_attempt_checks, b.first_attempt_checks)
    &&& same_numbers(a.recovery_triggers, b.recovery_triggers)
    &&& a.eligible_executions == b.eligible_executions
    &&& a.reviewed == b.reviewed
    &&& a.accepted == b.accepted
    &&& a.rejected == b.rejected
    &&& a.quality_rejected == b.quality_rejected
    &&& a.accepted_verified == b.accepted_verified
    &&& a.accepted_unverified == b.accepted_unverified
    &&& a.accepted_apply_blocked == b.accepted_apply_blocked
    &&& a.missing_review == b.missing_review
    &&& a.deferred == b.deferred
    &&& same_numbers(a.verification, b.verification)
    &&& same_numbers(a.failures, b.failures)
    &&& same_numbers(a.goal_failures, b.goal_failures)
    &&& same_numbers(a.exclusions, b.exclusions)
}

fn equal_numbers(a: &TextMap<u64>, b: &TextMap<u64>) -> (r: bool)
    ensures
        r == same_numbers(*a, *b),
{
    if a.entries.len() != b.entries.len() {
        return false;
    }
    let mut i: usize = 0;
    while i < a.entries.len()
        invariant
            i <= a.entries.len(),
            a.entries.len() == b.entries.len(),
            forall|k: int|
                0 <= k < i ==> (#[trigger] a.entries@[k]).0@ == b.entries@[k].0@ && a.entries@[k].1
                    == b.entries@[k].1,
        decreases a.entries.len() - i,
    {
        if a.entries[i].1 != b.entries[i].1 || !same(
            a.entries[i].0.as_str(),
            b.entries[i].0.as_str(),
        ) {
            return false;
        }
        i += 1;
    }
    true
}

fn equal_counts(a: &Counts, b: &Counts) -> (r: bool)
    ensures
        r == same_tallies(*a, *b),
{
    a.goals == b.goals && a.attempts == b.attempts && a.launched == b.launched && a.launch_unknown
        == b.launch_unknown && a.prelaunch == b.prelaunch && a.policy_chains == b.policy_chains
        && a.continuations == b.continuations && equal_numbers(
        &a.first_attempt_checks,
        &b.first_attempt_checks,
    ) && equal_numbers(&a.recovery_triggers, &b.recovery_triggers) && a.eligible_executions
        == b.eligible_executions && a.reviewed == b.reviewed && a.accepted == b.accepted && a.rejected
        == b.rejected && a.quality_rejected == b.quality_rejected && a.accepted_verified
        == b.accepted_verified && a.accepted_unverified == b.accepted_unverified
        && a.accepted_apply_blocked == b.accepted_apply_blocked && a.missing_review
        == b.missing_review && a.deferred == b.deferred && equal_numbers(
        &a.verification,
        &b.verification,
    ) && equal_numbers(&a.failures, &b.failures) && equal_numbers(&a.goal_failures, &b.goal_failures)
        && equal_numbers(&a.exclusions, &b.exclusions)
}

/// What a policy change does to the stored rows.
#[derive(Debug, Clone, PartialEq, Eq)]
pub struct PolicyChange {
    pub row: PolicyTransition,
    pub previous_revision: u64,
    /// The proposal that stops being in force, and what becomes of it.
    pub retired: Option<(String, String)>,
}

/// Why a policy change is refused, if it is.
pub open spec fn change_refusal(
    actor: Seq<char>,
    source_key: Seq<char>,
    revision: u64,
    expected: u64,
    facts: Option<TransitionFacts>,
) -> Option<Seq<char>> {
    if !begins_with(actor, "local-owner:"@) {
        Some("explicit local owner required"@)
    } else if revision != expected {
        Some("stale policy revision"@)
    } else {
        match facts {
            None => None,
            Some(f) => if !(f.status@ == "proposed"@ && f.proposal.context.source_key@ == source_key
                && same_key(f.proposal.context, f.context) && f.references_valid) {
                Some("stale, superseded, or incompatible proposal"@)
            } else if !holds(f.trial_behaviors@, f.proposal.target_behavior@) {
                Some("target configuration unavailable"@)
            } else if f.base_behavior@ != f.proposal.source_behavior@ {
                Some("source profile changed; proposal no longer applies"@)
            } else if !counts_stand(f.summary, f.proposal.source_behavior@, f.proposal.counts) {
                Some("screening evidence changed; inspect a new proposal"@)
            } else {
                None
            },
        }
    }
}

/// Decides a change of the private policy of a source: to the proposal under `id`, or back to the base
/// policy. Counts are compared with the current ones; those in a stored proposal are never trusted.
pub fn transition_on(
    actor: &str,
    source_key: &str,
    revision: u64,
    previous: Option<&str>,
    expected: u64,
    id: Option<&str>,
    facts: Option<&TransitionFacts>,
) -> (r: Result<PolicyChange, String>)
    requires
        revision < u64::MAX,
        id is Some == facts is Some,
    ensures
        match change_refusal(actor@, source_key@, revision, expected, behind(facts)) {
            Some(reason) => r matches Err(e) && e@ == reason,
            None => r matches Ok(c) && {
                &&& c.row.source_key@ == source_key@
                &&& c.row.revision == revision + 1
                &&& optional_view(c.row.proposal_id) == optional_str(id)
                &&& c.previous_revision == revision
                &&& match (previous, c.retired) {
                    (Some(p), Some(t)) => t.0@ == p@ && t.1@ == (if id is Some {
                        "superseded"@
                    } else {
                        "revoked"@
                    }),
                    (None, None) => true,
                    _ => false,
                }
            },
        },
{
    if !has_prefix(actor, "local-owner:") {
        return Err("explicit local owner required".to_owned());
    }
    if revision != expected {
        return Err("stale policy revision".to_owned());
    }
    if let Some(f) = facts {
        if !(same(f.status.as_str(), "proposed") && same(
            f.proposal.context.source_key.as_str(),
            source_key,
        ) && same_context(&f.proposal.context, &f.context) && f.references_valid) {
            return Err("stale, superseded, or incompatible proposal".to_owned());
        }
        if !holds_text(&f.trial_behaviors, f.proposal.target_behavior.as_str()) {
            return Err("target configuration unavailable".to_owned());
        }
        if !same(f.base_behavior.as_str(), f.proposal.source_behavior.as_str()) {
            return Err("source profile changed; proposal no longer applies".to_owned());
        }
        let stands = match find_only_cohort(
            &f.summary.resources,
            f.proposal.source_behavior.as_str(),
        ) {
            Some(i) => !f.summary.truncated && equal_counts(
                &f.summary.resources.entries[i].1,
                &f.proposal.counts,
            ),
            None => false,
        };
        if !stands {
            return Err("screening evidence changed; inspect a new proposal".to_owned());
        }
    }
    let retired = match previous {
        Some(p) => Some(
            (
                p.to_owned(),
                if id.is_some() {
                    "superseded".to_owned()
                } else {
                    "revoked".to_owned()
                },
            ),
        ),
        None => None,
    };
    let proposal_id = match id {
        Some(id) => Some(id.to_owned()),
        None => None,
    };
    Ok(
        PolicyChange {
            row: PolicyTransition {
                source_key: source_key.to_owned(),
                revision: revision + 1,
                proposal_id,
            },
            previous_revision: revision,
            retired,
        },
    )
}

/// A policy change needs the local owner and the current revision, so of two changes that expect the
/// same revision only the first is accepted.
pub proof fn policy_changes_are_fenced(
    actor: Seq<char>,
    rows: Seq<PolicyTransition>,
    source_key: Seq<char>,
    expected: u64,
    row: PolicyTransition,
    facts: Option<TransitionFacts>,
)
    requires
        change_refusal(
            actor,
            source_key,
            revision_in_force(rows, source_key),
            expected,
            facts,
        ) is None,
        row.source_key@ == source_key,
        row.revision == revision_in_force(rows, source_key) + 1,
    ensures
        begins_with(actor, "local-owner:"@),
        forall|later: Option<TransitionFacts>, who: Seq<char>|
            #[trigger] change_refusal(
                who,
                source_key,
                revision_in_force(rows.push(row), source_key),
                expected,
                later,
            ) is Some,
{
    next_revision_takes_force(rows, row, source_key);
}

/// A trial becomes active only on evidence that holds now and on counts that stand now.
pub proof fn only_standing_evidence_becomes_active(
    actor: Seq<char>,
    source_key: Seq<char>,
    revision: u64,
    expected: u64,
    facts: TransitionFacts,
)
    requires
        change_refusal(actor, source_key, revision, expected, Some(facts)) is None,
    ensures
        facts.status@ == "proposed"@,
        facts.references_valid,
        counts_stand(facts.summary, facts.proposal.source_behavior@, facts.proposal.counts),
{
}

/// The context that a decision is inspected under: the one it recorded, or one that says only what is
/// known of it.
pub fn inspected_context(decision: &AllocationDecision, source_key: &str) -> (r: ContextKey)
    ensures
        match decision.private_evidence {
            Some(e) => r == e.context,
            None => {
                &&& r.source_key@ == source_key@
                &&& r.features == decision.task_features
                &&& r.verification@ == "unknown"@
                &&& r.mapping is None
                &&& r.base_policy == decision.policy_version
            },
        },
{
    match &decision.private_evidence {
        Some(e) => e.context.copied(),
        None => ContextKey {
            source_key: source_key.to_owned(),
            features: decision.task_features.copied(),
            verification: "unknown".to_owned(),
            mapping: None,
            base_policy: decision.policy_version.clone(),
        },
    }
}

/// Whether a configured profile still offers a choice and may run.
pub open spec fn offers(p: ResourceProfile, c: ResourceChoice) -> bool {
    &&& p.model@ == c.resolved_model@
    &&& p.harness@ == c.harness@
    &&& optional_view(p.effort) == optional_view(c.effort)
    &&& ineligibility(p) is None
}

/// Whether some configured profile still offers a choice.
pub open spec fn offered(profiles: Seq<ResourceProfile>, c: ResourceChoice) -> bool {
    exists|i: int| 0 <= i < profiles.len() && offers(#[trigger] profiles[i], c)
}

fn still_offered(profiles: &Vec<ResourceProfile>, c: &ResourceChoice) -> (r: bool)
    ensures
        r == offered(profiles@, *c),
{
    let mut i: usize = 0;
    while i < profiles.len()
        invariant
            i <= profiles.len(),
            forall|k: int| 0 <= k < i ==> !offers(#[trigger] profiles@[k], *c),
        decreases profiles.len() - i,
    {
        let p = &profiles[i];
        let effort = match &c.effort {
            Some(effort) => Some(effort.as_str()),
            None => None,
        };
        let permitted = match p.eligibility() {
            Ok(()) => true,
            Err(_) => false,
        };
        if same(p.model.as_str(), c.resolved_model.as_str()) && same(
            p.harness.as_str(),
            c.harness.as_str(),
        ) && same_optional(&p.effort, effort) && permitted {
            assert(offers(profiles@[i as int], *c));
            return true;
        }
        i += 1;
    }
    false
}

/// Takes the alternatives of a past decision out of reach that the configuration no longer offers,
/// before the decision is screened again.
pub fn narrow_alternatives(decision: &mut AllocationDecision, resources: &ResourceConfig)
    ensures
        final(decision).alternatives@.len() == old(decision).alternatives@.len(),
        forall|i: int|
            0 <= i < old(decision).alternatives@.len() ==> {
                let was = old(decision).alternatives@[i];
                #[trigger] final(decision).alternatives@[i] == (AllocationAlternative {
                    eligible: was.eligible && offered(resources.profiles@, was.choice),
                    ..was
                })
            },
        *final(decision) == (AllocationDecision {
            alternatives: final(decision).alternatives,
            ..*old(decision)
        }),
{
    let mut i: usize = 0;
    while i < decision.alternatives.len()
        invariant
            i <= decision.alternatives.len(),
            decision.alternatives@.len() == old(decision).alternatives@.len(),
            forall|k: int|
                0 <= k < i ==> {
                    let was = old(decision).alternatives@[k];
                    #[trigger] decision.alternatives@[k] == (AllocationAlternative {
                        eligible: was.eligible && offered(resources.profiles@, was.choice),
                        ..was
                    })
                },
            forall|k: int|
                i <= k < decision.alternatives@.len() ==> #[trigger] decision.alternatives@[k]
                    == old(decision).alternatives@[k],
            *decision == (AllocationDecision {
                alternatives: decision.alternatives,
                ..*old(decision)
            }),
        decreases decision.alternatives.len() - i,
    {
        let offered = still_offered(&resources.profiles, &decision.alternatives[i].choice);
        let eligible = decision.alternatives[i].eligible && offered;
        decision.alternatives[i].eligible = eligible;
        i += 1;
    }
}

/// The entries of a map of numbers as JSON writes them, without the braces.
pub open spec fn numbers_text(entries: Seq<(String, u64)>) -> Seq<char>
    decreases entries.len(),
{
    if entries.len() == 0 {
        Seq::empty()
    } else {
        let earlier = numbers_text(entries.drop_last());
        let entry = json_string(entries.last().0@) + ":"@ + decimal(entries.last().1 as nat);
        if entries.len() == 1 {
            entry
        } else {
            earlier + ","@ + entry
        }
    }
}

fn write_numbers(map: &TextMap<u64>) -> (r: String)
    ensures
        r@ == "{"@ + numbers_text(map.entries@) + "}"@,
{
    let mut inner = String::new();
    let mut i: usize = 0;
    while i < map.entries.len()
        invariant
            i <= map.entries.len(),
            inner@ == numbers_text(map.entries@.take(i as int)),
        decreases map.entries.len() - i,
    {
        assert(map.entries@.take(i as int + 1).drop_last() =~= map.entries@.take(i as int));
        if i > 0 {
            inner.push_str(",");
        }
        let key = json_string_of(map.entries[i].0.as_str());
        inner.push_str(key.as_str());
        inner.push_str(":");
        inner.push_str(decimal_of(map.entries[i].1).as_str());
        proof {
            let entry = json_string(map.entries@[i as int].0@) + ":"@ + decimal(
                map.entries@[i as int].1 as nat,
            );
            if i == 0 {
                assert(inner@ =~= entry);
            } else {
                assert(inner@ =~= numbers_text(map.entries@.take(i as int)) + ","@ + entry);
            }
        }
        i += 1;
    }
    assert(map.entries@.take(map.entries@.len() as int) =~= map.entries@);
    let mut out = String::new();
    out.push_str("{");
    out.push_str(inner.as_str());
    out.push_str("}");
    assert(out@ =~= "{"@ + numbers_text(map.entries@) + "}"@);
    out
}

/// The lines that explain what private evidence says of a goal, then and now.
pub open spec fn explanation(
    then: Option<DecisionEvidence>,
    current: Summary,
    id: Seq<char>,
) -> Seq<Seq<char>> {
    let mode = match then {
        Some(e) => e.mode@,
        None => "historical_unknown"@,
    };
    let reason = match then {
        Some(e) => e.reason@,
        None => "no_pre_execution_snapshot"@,
    };
    seq![
        "Private evidence: decision mode "@ + mode + "; reason "@ + reason + "."@,
        "  Current project window: "@ + decimal(current.counts.goals as nat) + " goals; "@ + decimal(
            current.counts.reviewed as nat,
        ) + " reviewed; "@ + decimal(current.counts.accepted as nat) + " accepted; "@ + decimal(
            current.counts.rejected as nat,
        ) + " rejected; "@ + decimal(current.counts.missing_review as nat) + " missing reviews."@,
        "  "@ + decimal(current.resources.entries@.len())
            + " compatible resource cohorts; exclusions: "@ + "{"@ + numbers_text(
            current.counts.exclusions.entries@,
        ) + "}"@ + ". Observations are not success probabilities."@,
        "  Detail: dispatch evidence private "@ + id
            + " (decision-time and current evidence are separate)."@,
    ]
}

/// Explains what private evidence said when a goal was decided and what it says now.
pub fn explain(then: Option<&DecisionEvidence>, current: &Summary, id: &str) -> (r: Vec<String>)
    ensures
        texts(r@) == explanation(behind(then), *current, id@),
{
    let mut first = "Private evidence: decision mode ".to_owned();
    match then {
        Some(e) => {
            first.push_str(e.mode.as_str());
            first.push_str("; reason ");
            first.push_str(e.reason.as_str());
        },
        None => {
            first.push_str("historical_unknown");
            first.push_str("; reason ");
            first.push_str("no_pre_execution_snapshot");
        },
    }
    first.push_str(".");
    let counts = &current.counts;
    let mut second = "  Current project window: ".to_owned();
    second.push_str(decimal_of(counts.goals).as_str());
    second.push_str(" goals; ");
    second.push_str(decimal_of(counts.reviewed).as_str());
    second.push_str(" reviewed; ");
    second.push_str(decimal_of(counts.accepted).as_str());
    second.push_str(" accepted; ");
    second.push_str(decimal_of(counts.rejected).as_str());
    second.push_str(" rejected; ");
    second.push_str(decimal_of(counts.missing_review).as_str());
    second.push_str(" missing reviews.");
    let cohorts: usize = current.resources.entries.len();
    let mut third = "  ".to_owned();
    third.push_str(decimal_of(cohorts as u64).as_str());
    third.push_str(" compatible resource cohorts; exclusions: ");
    let exclusions = write_numbers(&counts.exclusions);
    third.push_str(exclusions.as_str());
    third.push_str(". Observations are not success probabilities.");
    let mut fourth = "  Detail: dispatch evidence private ".to_owned();
    fourth.push_str(id);
    fourth.push_str(" (decision-time and current evidence are separate).");
    let ghost lines = explanation(behind(then), *current, id@);
    assert(first@ =~= lines[0]);
    assert(second@ =~= lines[1]);
    assert(third@ =~= lines[2]);
    assert(fourth@ =~= lines[3]);
    let mut out: Vec<String> = Vec::new();
    out.push(first);
    out.push(second);
    out.push(third);
    out.push(fourth);
    assert(texts(out@) =~= lines);
    out
}

/// Whether a trial could run on a profile: it may run, it is stronger than light, and asking for its
/// model and effort selects something.
pub open spec fn could_try(
    profiles: Seq<ResourceProfile>,
    i: int,
    features: TaskFeatures,
    backend: Seq<char>,
) -> bool {
    &&& ineligibility(profiles[i]) is None
    &&& profiles[i].tier != ResourceTier::Light
    &&& some_eligible(
        profiles,
        Seq::empty(),
        request_of(
            features,
            backend,
            Some(profiles[i].model@),
            optional_view(profiles[i].effort),
            None,
            None,
            None,
        ),
    )
}

/// Whether asking for the model and the effort of a profile selects `c`.
pub open spec fn asking_selects(
    profiles: Seq<ResourceProfile>,
    i: int,
    features: TaskFeatures,
    backend: Seq<char>,
    c: ResourceChoice,
) -> bool {
    exists|d: AllocationDecision|
        d.selected == c && #[trigger] selection_result(
            Ok(d),
            profiles,
            features,
            backend,
            Some(profiles[i].model@),
            optional_view(profiles[i].effort),
            None,
            None,
            Seq::empty(),
            None,
        )
}

/// For each profile, the resource that a trial on it would run on now, where it could.
pub fn trial_choices(
    resources: &ResourceConfig,
    features: &TaskFeatures,
    backend: &str,
) -> (r: Vec<Option<ResourceChoice>>)
    ensures
        r@.len() == resources.profiles@.len(),
        forall|i: int|
            0 <= i < r@.len() ==> match #[trigger] r@[i] {
                Some(c) => could_try(resources.profiles@, i, *features, backend@)
                    && asking_selects(resources.profiles@, i, *features, backend@, c),
                None => !could_try(resources.profiles@, i, *features, backend@),
            },
{
    let profiles = &resources.profiles;
    let mut out: Vec<Option<ResourceChoice>> = Vec::new();
    let mut i: usize = 0;
    while i < profiles.len()
        invariant
            i <= profiles.len(),
            profiles@ == resources.profiles@,
            out@.len() == i,
            forall|k: int|
                0 <= k < i ==> match #[trigger] out@[k] {
                    Some(c) => could_try(profiles@, k, *features, backend@) && asking_selects(
                        profiles@,
                        k,
                        *features,
                        backend@,
                        c,
                    ),
                    None => !could_try(profiles@, k, *features, backend@),
                },
        decreases profiles.len() - i,
    {
        let p = &profiles[i];
        let permitted = match p.eligibility() {
            Ok(()) => true,
            Err(_) => false,
        };
        let mut choice: Option<ResourceChoice> = None;
        if permitted && p.tier != ResourceTier::Light {
            let effort = match &p.effort {
                Some(effort) => Some(effort.as_str()),
                None => None,
            };
            match select_resource(
                resources,
                features,
                backend,
                Some(p.model.as_str()),
                effort,
                None,
                None,
            ) {
                Ok(d) => {
                    let ghost decision = d;
                    choice = Some(d.selected);
                    assert(asking_selects(
                        profiles@,
                        i as int,
                        *features,
                        backend@,
                        decision.selected,
                    ));
                },
                Err(_) => {},
            }
        }
        out.push(choice);
        i += 1;
    }
    out
}

/// Why a past decision cannot be screened for a proposal, if it cannot. `current` is the context that
/// the task has now.
pub open spec fn rescreening_refusal(decision: AllocationDecision, current: ContextKey) -> Option<
    Seq<char>,
> {
    match decision.private_evidence {
        None => Some("no compatible pre-execution evidence context"@),
        Some(e) => if same_key(e.context, current) {
            None
        } else {
            Some("task/check configuration changed"@)
        },
    }
}

/// The decision that is screened for a proposal: the choice that the base policy made, among the
/// alternatives that the configuration still offers, without the evidence that it was made with. The
/// context of that evidence is handed back too.
pub fn propose(decision: AllocationDecision, current: &ContextKey, resources: &ResourceConfig) -> (r:
    Result<(AllocationDecision, ContextKey), String>)
    ensures
        match rescreening_refusal(decision, *current) {
            Some(reason) => r matches Err(e) && e@ == reason,
            None => {
                let old = decision.private_evidence->0;
                &&& r matches Ok((d, context))
                &&& context == old.context
                &&& d == (AllocationDecision {
                    selected: old.base_choice,
                    private_evidence: None,
                    alternatives: d.alternatives,
                    ..decision
                })
                &&& d.alternatives@.len() == decision.alternatives@.len()
                &&& forall|i: int|
                    0 <= i < decision.alternatives@.len() ==> {
                        let was = decision.alternatives@[i];
                        #[trigger] d.alternatives@[i] == (AllocationAlternative {
                            eligible: was.eligible && offered(resources.profiles@, was.choice),
                            ..was
                        })
                    }
            },
        },
{
    let mut decision = decision;
    let evidence = match decision.private_evidence {
        None => {
            return Err("no compatible pre-execution evidence context".to_owned());
        },
        Some(e) => e,
    };
    decision.private_evidence = None;
    if !same_context(&evidence.context, current) {
        return Err("task/check configuration changed".to_owned());
    }
    narrow_alternatives(&mut decision, resources);
    decision.selected = evidence.base_choice;
    Ok((decision, evidence.context))
}

/// Under which name the owner of the state acts; nobody else does.
pub fn owner_authority(state_owner: u32, local: u32) -> (r: Result<String, String>)
    ensures
        if state_owner == local {
            r matches Ok(name) && name@ == "local-owner:"@ + decimal(local as nat)
        } else {
            r matches Err(e) && e@ == "state owner required"@
        },
{
    if state_owner != local {
        return Err("state owner required".to_owned());
    }
    let mut name = "local-owner:".to_owned();
    name.push_str(decimal_of(local as u64).as_str());
    Ok(name)
}

/// What the owner is asked to attest; only the challenge itself attests it.
pub fn attestation_prompt(statement: &str, challenge: &str) -> (r: String)
    ensures
        r@ == statement@ + "\nType "@ + challenge@ + " to attest this exact statement:"@,
{
    let mut text = statement.to_owned();
    text.push_str("\nType ");
    text.push_str(challenge);
    text.push_str(" to attest this exact statement:");
    text
}

/// Whether an answer attests a statement.
pub fn owner_attestation(answer: &str, challenge: &str) -> (r: Result<(), String>)
    ensures
        if trim(answer@) == challenge@ {
            r is Ok
        } else {
            r matches Err(e) && e@ == "owner attestation declined"@
        },
{
    if same(trimmed(answer).as_str(), challenge) {
        Ok(())
    } else {
        Err("owner attestation declined".to_owned())
    }
}

/// What the owner attests to when they annotate a goal.
pub open spec fn annotation_text(id: Seq<char>, request: AnnotationRequest) -> Seq<char> {
    "Annotate goal "@ + id + ", delivery "@ + request.annotation.delivery@ + ", feedback "@ + shown(
        request.feedback_id,
    ) + ": origin="@ + request.annotation.origin@ + ", review="@ + request.annotation.review@
        + ", repair_minutes="@ + (match request.annotation.repair_minutes {
        Some(n) => "Some("@ + decimal(n as nat) + ")"@,
        None => "None"@,
    })
        + ". Human means an actual person's judgment, never scripted approval. This creates no outcome label."@
}

/// What the owner attests to when they annotate a goal.
pub fn annotation_statement(id: &str, request: &AnnotationRequest) -> (r: String)
    ensures
        r@ == annotation_text(id@, *request),
{
    let mut text = "Annotate goal ".to_owned();
    text.push_str(id);
    text.push_str(", delivery ");
    text.push_str(request.annotation.delivery.as_str());
    text.push_str(", feedback ");
    text.push_str(show(&request.feedback_id).as_str());
    text.push_str(": origin=");
    text.push_str(request.annotation.origin.as_str());
    text.push_str(", review=");
    text.push_str(request.annotation.review.as_str());
    text.push_str(", repair_minutes=");
    match request.annotation.repair_minutes {
        Some(n) => {
            text.push_str("Some(");
            text.push_str(decimal_of(n).as_str());
            text.push_str(")");
        },
        None => text.push_str("None"),
    }
    text.push_str(
        ". Human means an actual person's judgment, never scripted approval. This creates no outcome label.",
    );
    assert(text@ =~= annotation_text(id@, *request));
    text
}

/// What the owner attests to when they change the policy of a source. `proposal` is the proposal as JSON.
pub fn transition_statement(source: &str, expected: u64, proposal: &str) -> (r: String)
    ensures
        r@ == "Change future private policy for "@ + source@ + " at revision "@ + decimal(
            expected as nat,
        ) + ". Proposal: "@ + proposal@ + ". Rollback restores "@ + base_policy()
            + "; no historical goal or permission is rewritten."@,
{
    let mut text = "Change future private policy for ".to_owned();
    text.push_str(source);
    text.push_str(" at revision ");
    text.push_str(decimal_of(expected).as_str());
    text.push_str(". Proposal: ");
    text.push_str(proposal);
    text.push_str(". Rollback restores ");
    text.push_str("allocation-portfolio-v3");
    text.push_str("; no historical goal or permission is rewritten.");
    text
}

} // verus!
