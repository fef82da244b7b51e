//! When the outcomes of past goals suggest a trial of another resource.

use vstd::prelude::*;

use crate::private_evidence::{
    behavior_of, behaves_as, can_be_tried, cohorts_of, first_trial, only_cohort, screening, Behavior,
    Counts, Screening, Summary,
};

use crate::text::begins_with;
use crate::text_map::TextMap;
use crate::router::{
    AllocationAlternative, AllocationDecision, ResourceChoice, ResourceTier, TaskScope,
};

verus! {

/// Whether a behaviour is that of a choice: the same model, harness and effort.
pub open spec fn runs_as(b: Behavior, c: ResourceChoice) -> bool {
    &&& b.resolved_model@ == c.resolved_model@
    &&& b.harness@ == c.harness@
    &&& (b.effort is Some) == (c.effort is Some)
    &&& b.effort is Some ==> b.effort->0@ == c.effort->0@
}

/// Whether a cohort is of a behaviour: its name begins with the key of the behaviour and a bar.
pub open spec fn is_of(cohort: (String, Counts), key: Seq<char>) -> bool {
    begins_with(cohort.0@, key + "|"@)
}

/// Whether the cohort at `k` is the only one of a behaviour.
pub open spec fn is_only(resources: TextMap<Counts>, key: Seq<char>, k: int) -> bool {
    &&& 0 <= k < resources.entries@.len()
    &&& is_of(resources.entries@[k], key)
    &&& forall|j: int|
        0 <= j < resources.entries@.len() && is_of(#[trigger] resources.entries@[j], key) ==> j == k
}

/// Whether an alternative is worth a trial: it may run, its program is known, it is stronger than light, and
/// the only cohort of its behaviour has a goal whose checks passed.
pub open spec fn is_worth_trying(summary: Summary, alt: AllocationAlternative, b: Behavior) -> bool {
    &&& alt.eligible
    &&& b.executable_known
    &&& alt.choice.tier != ResourceTier::Light
    &&& exists|k: int|
        is_only(summary.resources, b.key@, k) && (
        #[trigger] summary.resources.entries@[k]).1.verification.at("passed"@) is Some
            && summary.resources.entries@[k].1.verification.at("passed"@)->0 > 0
}

/// Whether the reviews of a cohort call for a trial: at least twenty reviewed goals that are at least four
/// fifths of all, and at least five rejections for the quality of the work that are at least a quarter of the
/// reviews.
pub open spec fn calls_for_trial(c: Counts) -> bool {
    &&& c.reviewed >= 20
    &&& c.reviewed * 5 >= c.goals * 4
    &&& c.quality_rejected >= 5
    &&& c.quality_rejected * 4 >= c.reviewed
}

proof fn cohorts_are_listed(entries: Seq<(String, Counts)>, key: Seq<char>, n: int)
    requires
        0 <= n <= entries.len(),
    ensures
        forall|i: int|
            0 <= i < cohorts_of(entries, key, n).len() ==> 0 <= #[trigger] cohorts_of(entries, key, n)[i] < n
                && is_of(entries[cohorts_of(entries, key, n)[i]], key),
        forall|j: int|
            0 <= j < n && is_of(#[trigger] entries[j], key) ==> cohorts_of(entries, key, n).contains(j),
        forall|i: int, j: int|
            0 <= i < j < cohorts_of(entries, key, n).len() ==> (#[trigger] cohorts_of(entries, key, n)[i])
                < (#[trigger] cohorts_of(entries, key, n)[j]),
    decreases n,
{
    if n > 0 {
        cohorts_are_listed(entries, key, n - 1);
        let earlier = cohorts_of(entries, key, n - 1);
        let all = cohorts_of(entries, key, n);
        assert forall|j: int| 0 <= j < n && is_of(#[trigger] entries[j], key) implies all.contains(j) by {
            if j < n - 1 {
                let i = choose|i: int| 0 <= i < earlier.len() && earlier[i] == j;
                assert(all[i] == j);
            } else {
                assert(all.last() == j);
            }
        }
    }
}

proof fn the_only_one(resources: TextMap<Counts>, key: Seq<char>)
    ensures
        only_cohort(resources, key) matches Some(k) ==> is_only(resources, key, k),
        forall|k: int| is_only(resources, key, k) ==> only_cohort(resources, key) == Some(k),
{
    let entries = resources.entries@;
    let found = cohorts_of(entries, key, entries.len() as int);
    cohorts_are_listed(entries, key, entries.len() as int);
    if found.len() == 1 {
        let k = found[0];
        assert forall|j: int| 0 <= j < entries.len() && is_of(#[trigger] entries[j], key) implies j == k by {
            let i = choose|i: int| 0 <= i < found.len() && found[i] == j;
        }
    }
    assert forall|k: int| is_only(resources, key, k) implies only_cohort(resources, key) == Some(k) by {
        assert(found.contains(k));
        if found.len() > 1 {
            assert(is_of(entries[found[0]], key) && is_of(entries[found[1]], key));
            assert(found[0] < found[1]);
        }
    }
}

proof fn worth_trying(summary: Summary, alt: AllocationAlternative, b: Behavior)
    ensures
        can_be_tried(summary, alt, b) == is_worth_trying(summary, alt, b),
{
    the_only_one(summary.resources, b.key@);
    if can_be_tried(summary, alt, b) {
        let k = only_cohort(summary.resources, b.key@)->0;
        assert(is_only(summary.resources, b.key@, k) && summary.resources.entries@[k].1.verification.at(
            "passed"@,
        ) is Some);
    }
}

proof fn the_first_to_try(
    summary: Summary,
    alternatives: Seq<AllocationAlternative>,
    behaviors: Seq<Behavior>,
    from: int,
)
    requires
        0 <= from,
    ensures
        match first_trial(summary, alternatives, behaviors, from) {
            Some(i) => from <= i < alternatives.len() && i < behaviors.len() && is_worth_trying(
                summary,
                alternatives[i],
                behaviors[i],
            ) && forall|j: int|
                from <= j < i ==> !is_worth_trying(
                    summary,
                    #[trigger] alternatives[j],
                    behaviors[j],
                ),
            None => forall|j: int|
                from <= j < alternatives.len() && j < behaviors.len() ==> !is_worth_trying(
                    summary,
                    #[trigger] alternatives[j],
                    behaviors[j],
                ),
        },
    decreases alternatives.len() - from,
{
    if from < alternatives.len() && from < behaviors.len() {
        worth_trying(summary, alternatives[from], behaviors[from]);
        if !can_be_tried(summary, alternatives[from], behaviors[from]) {
            the_first_to_try(summary, alternatives, behaviors, from + 1);
        }
    }
}

proof fn the_first_behavior(behaviors: Seq<Behavior>, c: ResourceChoice, from: int)
    requires
        0 <= from,
    ensures
        match behavior_of(behaviors, c, from) {
            Some(i) => from <= i < behaviors.len() && runs_as(behaviors[i], c) && forall|j: int|
                from <= j < i ==> !runs_as(#[trigger] behaviors[j], c),
            None => forall|j: int| from <= j < behaviors.len() ==> !runs_as(#[trigger] behaviors[j], c),
        },
    decreases behaviors.len() - from,
{
    if from < behaviors.len() {
        let b = behaviors[from];
        assert(behaves_as(b, c) == runs_as(b, c));
        if !behaves_as(b, c) {
            the_first_behavior(behaviors, c, from + 1);
        }
    }
}

/// A trial is suggested exactly where all of this holds: the window is whole and its tasks are mapped and
/// local, the resource in use is a light one whose behaviour is known and local, the only cohort of that
/// behaviour calls for a trial, and some alternative is worth one. The first such alternative is tried.
pub proof fn a_trial_is_suggested_exactly_on_evidence(
    summary: Summary,
    decision: AllocationDecision,
    behaviors: Seq<Behavior>,
    base: int,
    cohort: int,
    alternative: int,
)
    ensures
        screening(summary, decision, behaviors) == (Screening::Trial { base, cohort, alternative }) <==> {
            &&& !summary.truncated && summary.context.mapping is Some
            &&& summary.context.features.scope == TaskScope::Localized
            &&& decision.selected.tier == ResourceTier::Light
            &&& 0 <= base < behaviors.len() && runs_as(behaviors[base], decision.selected)
            &&& forall|j: int| 0 <= j < base ==> !runs_as(#[trigger] behaviors[j], decision.selected)
            &&& behaviors[base].executable_known && behaviors[base].runtime@ == "local"@
            &&& is_only(summary.resources, behaviors[base].key@, cohort)
            &&& calls_for_trial(summary.resources.entries@[cohort].1)
            &&& 0 <= alternative < decision.alternatives@.len() && alternative < behaviors.len()
            &&& is_worth_trying(
                summary,
                decision.alternatives@[alternative],
                behaviors[alternative],
            )
            &&& forall|j: int|
                0 <= j < alternative ==> !is_worth_trying(
                    summary,
                    #[trigger] decision.alternatives@[j],
                    behaviors[j],
                )
        },
{
    the_first_behavior(behaviors, decision.selected, 0);
    the_first_to_try(summary, decision.alternatives@, behaviors, 0);
    if let Some(b) = behavior_of(behaviors, decision.selected, 0) {
        the_only_one(summary.resources, behaviors[b].key@);
    }
    if 0 <= base < behaviors.len() {
        the_only_one(summary.resources, behaviors[base].key@);
        if runs_as(behaviors[base], decision.selected) && (forall|j: int|
            0 <= j < base ==> !runs_as(#[trigger] behaviors[j], decision.selected)) {
            let b = behavior_of(behaviors, decision.selected, 0)->0;
            assert(b == base) by {
                if b < base {
                    assert(!runs_as(behaviors[b], decision.selected));
                }
            }
        }
    }
    if 0 <= alternative < decision.alternatives@.len() && alternative < behaviors.len()
        && is_worth_trying(summary, decision.alternatives@[alternative], behaviors[alternative]) {
        let t = first_trial(summary, decision.alternatives@, behaviors, 0)->0;
        if t < alternative {
            assert(is_worth_trying(summary, decision.alternatives@[t], behaviors[t]));
        }
    }
}

} // verus!
