//! What the counts of a summary are: how many goals of its window are of which kind, read off the goals and
//! their reviews.

use vstd::prelude::*;

use crate::private_evidence::{
    attempt_values, attempts_values, cohort_of, cohort_share, counted, entry_counts, entry_measures, exclusions_of, failed_operationally, first_checks,
    goal_values, is_chain, launch_of, launches, no_values, nothing, occurrences, one_if, origin_of, origin_share, origin_values, reference_views, references_to,
    review_counts, same_key, share_of, share_or_nothing, substituted, sum, summarizes, tallies, together,
    total_share, triggers, AttemptFacts, ContextKey, Counts, GoalFacts, LaunchKnown, ReferenceView,
    Share, Summary, Values,
};

use crate::text::optional_view;
use crate::text_map::TextMap;
use crate::record::{ApplicationState, CheckStatus, FailureKind, ReviewState, VerificationState};

verus! {

/// How many rows hold a goal of a kind.
pub open spec fn number_of(rows: Seq<Option<GoalFacts>>, kind: spec_fn(GoalFacts) -> bool) -> nat {
    rows.filter(|row: Option<GoalFacts>| row is Some && kind(row->0)).len()
}

/// What the goals of a kind add up to.
pub open spec fn sum_over(
    rows: Seq<Option<GoalFacts>>,
    kind: spec_fn(GoalFacts) -> bool,
    amount: spec_fn(GoalFacts) -> nat,
) -> nat
    decreases rows.len(),
{
    if rows.len() == 0 {
        0
    } else {
        sum_over(rows.drop_last(), kind, amount) + (if rows.last() is Some && kind(rows.last()->0) {
            amount(rows.last()->0)
        } else {
            0
        })
    }
}

/// The goals that are of two kinds.
pub open spec fn both(
    a: spec_fn(GoalFacts) -> bool,
    b: spec_fn(GoalFacts) -> bool,
) -> spec_fn(GoalFacts) -> bool {
    |g: GoalFacts| a(g) && b(g)
}

/// Every goal.
pub open spec fn any_goal() -> spec_fn(GoalFacts) -> bool {
    |g: GoalFacts| true
}

/// The goals that were stated to come from an origin; those of which nothing was stated are unknown.
pub open spec fn from_origin(origin: Seq<char>) -> spec_fn(GoalFacts) -> bool {
    |g: GoalFacts|
        (g.annotation is Some && g.annotation->0.annotation.origin@ == origin) || (g.annotation is None
            && origin == "unknown"@)
}

/// Whether the review of a goal was attested: the annotation names that very review and that very delivery,
/// and says that a person reviewed ordinary work, or, in a store of made-up goals, that both are made up.
pub open spec fn is_attested(g: GoalFacts, fixture: bool) -> bool {
    &&& g.annotation is Some
    &&& g.feedback is Some
    &&& g.annotation->0.feedback_id is Some
    &&& g.annotation->0.feedback_id->0@ == g.feedback->0.id@
    &&& g.annotation->0.annotation.delivery@ == g.delivery@
    &&& {
        ||| g.annotation->0.annotation.review@ == "human"@ && g.annotation->0.annotation.origin@
            == "ordinary"@
        ||| fixture && g.annotation->0.annotation.review@ == "synthetic"@
            && g.annotation->0.annotation.origin@ == "synthetic"@
    }
}

/// The goals with a review that counts.
pub open spec fn attested(fixture: bool) -> spec_fn(GoalFacts) -> bool {
    |g: GoalFacts| is_attested(g, fixture)
}

/// The goals without one.
pub open spec fn unattested(fixture: bool) -> spec_fn(GoalFacts) -> bool {
    |g: GoalFacts| !is_attested(g, fixture)
}

/// The goals whose attested review has the outcome "accepted".
pub open spec fn accepting(fixture: bool) -> spec_fn(GoalFacts) -> bool {
    |g: GoalFacts| is_attested(g, fixture) && g.feedback->0.outcome@ == "accepted"@
}

/// The goals whose attested review has any other outcome.
pub open spec fn rejecting(fixture: bool) -> spec_fn(GoalFacts) -> bool {
    |g: GoalFacts| is_attested(g, fixture) && g.feedback->0.outcome@ != "accepted"@
}

/// The accepted goals whose checks passed.
pub open spec fn accepting_verified(fixture: bool) -> spec_fn(GoalFacts) -> bool {
    |g: GoalFacts|
        is_attested(g, fixture) && g.feedback->0.outcome@ == "accepted"@ && g.verification
            == VerificationState::Passed
}

/// The accepted goals whose checks did not pass, or did not run.
pub open spec fn accepting_unverified(fixture: bool) -> spec_fn(GoalFacts) -> bool {
    |g: GoalFacts|
        is_attested(g, fixture) && g.feedback->0.outcome@ == "accepted"@ && g.verification
            != VerificationState::Passed
}

/// The accepted goals that could not be applied because their source moved.
pub open spec fn accepting_blocked(fixture: bool) -> spec_fn(GoalFacts) -> bool {
    |g: GoalFacts|
        is_attested(g, fixture) && g.feedback->0.outcome@ == "accepted"@ && g.application
            == ApplicationState::BlockedBySourceDrift
}

/// Whether a review gives a reason.
pub open spec fn gives(g: GoalFacts, reason: Seq<char>) -> bool {
    exists|i: int|
        0 <= i < g.feedback->0.reasons@.len() && (#[trigger] g.feedback->0.reasons@[i])@ == reason
}

/// The rejected goals whose review faults the work itself: it is not correct, not complete or needs rework,
/// and neither the wishes nor the source changed meanwhile.
pub open spec fn rejecting_quality(fixture: bool) -> spec_fn(GoalFacts) -> bool {
    |g: GoalFacts|
        {
            &&& is_attested(g, fixture) && g.feedback->0.outcome@ != "accepted"@
            &&& gives(g, "correctness"@) || gives(g, "completeness"@) || gives(g, "rework"@)
            &&& !gives(g, "changed-requirements"@) && !gives(g, "source-drift"@)
        }
}

/// The goals whose review was put off.
pub open spec fn put_off() -> spec_fn(GoalFacts) -> bool {
    |g: GoalFacts| g.review == ReviewState::Deferred
}

/// The goals that more went into than one attempt of an executor.
pub open spec fn combined() -> spec_fn(GoalFacts) -> bool {
    |g: GoalFacts|
        {
            ||| g.attempts@.len() == 0 || g.attempts@.len() > 1
            ||| g.contributing_attempts > 1
            ||| g.questions > 0
            ||| g.attempts@[0].has_parent
            ||| g.attempts@[0].role@ != "executor"@
        }
}

/// Whether two contexts agree in everything.
pub open spec fn agree(a: ContextKey, b: ContextKey) -> bool {
    &&& a.source_key@ == b.source_key@
    &&& (a.features.language is Some) == (b.features.language is Some)
    &&& a.features.language is Some ==> a.features.language->0@ == b.features.language->0@
    &&& a.features.task_kind == b.features.task_kind
    &&& a.features.scope == b.features.scope
    &&& a.verification@ == b.verification@
    &&& (a.mapping is Some) == (b.mapping is Some)
    &&& a.mapping is Some ==> a.mapping->0@ == b.mapping->0@
    &&& a.base_policy@ == b.base_policy@
}

/// The goals that can be compared: of the origin that is counted, delivered by one finished attempt of one
/// known resource that did not fail for another reason than its checks, in a context that the owner mapped,
/// and run by what was resolved.
pub open spec fn comparable(ctx: ContextKey, fixture: bool) -> spec_fn(GoalFacts) -> bool {
    |g: GoalFacts|
        {
            let first = g.attempts@[0];
            &&& g.annotation is Some
            &&& g.annotation->0.annotation.origin@ == (if fixture {
                "synthetic"@
            } else {
                "ordinary"@
            })
            &&& g.attempts@.len() == 1
            &&& first.completed && first.result is Some
            &&& g.contributing_attempts <= 1 && g.questions == 0
            &&& !first.has_parent && first.role@ == "executor"@
            &&& first.failure is None || first.failure == Some(FailureKind::TargetVerification)
            &&& g.decision is Some && agree(g.decision->0.context, ctx)
            &&& ctx.mapping is Some
            &&& first.harness_version is Some && first.resolved_model is Some
            &&& first.observed_model is Some ==> first.observed_model->0@ == first.resolved_model->0@
            &&& first.observed_effort is Some ==> first.resolved_effort is Some
                && first.observed_effort->0@ == first.resolved_effort->0@
        }
}

/// Whether an attempt is known to have been launched: admission saw its process, or the process left an
/// exit code or ran out of time.
pub open spec fn was_launched(a: AttemptFacts) -> bool {
    ||| a.launch is Some && (a.launch->0@ == "child_recorded"@ || a.launch->0@ == "cleanup_confirmed"@)
    ||| a.result is Some && (a.result->0.exit_code is Some || a.result->0.timed_out)
}

/// Whether an attempt is known not to have been launched.
pub open spec fn was_held_back(a: AttemptFacts) -> bool {
    &&& !was_launched(a)
    &&& a.launch is Some && (a.launch->0@ == "launch_intent_committed"@ || a.launch->0@
        == "launch_not_started"@)
}

/// How many attempts a goal had.
pub open spec fn attempts_made() -> spec_fn(GoalFacts) -> nat {
    |g: GoalFacts| g.attempts@.len()
}

/// How many of them were launched.
pub open spec fn attempts_launched() -> spec_fn(GoalFacts) -> nat {
    |g: GoalFacts| g.attempts@.filter(|a: AttemptFacts| was_launched(a)).len()
}

/// How many of them were not; a goal without an attempt counts as one that was not.
pub open spec fn attempts_held_back() -> spec_fn(GoalFacts) -> nat {
    |g: GoalFacts|
        if g.attempts@.len() == 0 {
            1
        } else {
            g.attempts@.filter(|a: AttemptFacts| was_held_back(a)).len()
        }
}

/// Of how many of them it is not known.
pub open spec fn attempts_unclear() -> spec_fn(GoalFacts) -> nat {
    |g: GoalFacts|
        g.attempts@.filter(|a: AttemptFacts| !was_launched(a) && !was_held_back(a)).len()
}

/// How many attempts behind the first went on with the goal. The tasks of a plan do not.
pub open spec fn attempts_continuing() -> spec_fn(GoalFacts) -> nat {
    |g: GoalFacts|
        if g.attempts@.len() == 0 {
            0
        } else {
            g.attempts@.subrange(1, g.attempts@.len() as int).filter(
                |a: AttemptFacts| a.role@ != "task"@,
            ).len()
        }
}

/// The word for how the checks of a goal ended.
pub open spec fn verification_word(state: VerificationState) -> Seq<char> {
    match state {
        VerificationState::NotRun => "not_run"@,
        VerificationState::NotConfigured => "not_configured"@,
        VerificationState::Passed => "passed"@,
        VerificationState::Failed => "failed"@,
        VerificationState::Inconclusive => "inconclusive"@,
    }
}

/// The goals whose checks ended with a word.
pub open spec fn verified_as(word: Seq<char>) -> spec_fn(GoalFacts) -> bool {
    |g: GoalFacts| verification_word(g.verification) == word
}

/// The goals whose first attempt ended its checks with a word. They passed only where all did, and failed
/// where not all passed and one failed.
pub open spec fn first_checked_as(word: Seq<char>) -> spec_fn(GoalFacts) -> bool {
    |g: GoalFacts|
        {
            let statuses = g.attempts@[0].result->0.check_statuses@;
            let all = forall|i: int|
                0 <= i < statuses.len() ==> #[trigger] statuses[i] == CheckStatus::Passed;
            let some = exists|i: int|
                0 <= i < statuses.len() && #[trigger] statuses[i] == CheckStatus::Failed;
            if g.attempts@.len() == 0 || g.attempts@[0].result is None {
                word == "not_run"@
            } else if statuses.len() == 0 {
                word == "not_run_or_not_configured"@
            } else {
                ||| all && word == "passed"@
                ||| some && word == "failed"@
                ||| !all && !some && word == "inconclusive"@
            }
        }
}

/// Whether a map holds a number under a key exactly where it is not zero.
pub open spec fn holds_number(map: TextMap<u64>, key: Seq<char>, n: nat) -> bool {
    if n > 0 {
        map.at(key) == Some(n as u64)
    } else {
        map.at(key) is None
    }
}

/// Whether counts are those of the goals of a kind among the rows.
pub open spec fn counts_goals(
    c: Counts,
    rows: Seq<Option<GoalFacts>>,
    kind: spec_fn(GoalFacts) -> bool,
    ctx: ContextKey,
    fixture: bool,
) -> bool {
    &&& c.goals == number_of(rows, kind)
    &&& c.reviewed == number_of(rows, both(kind, attested(fixture)))
    &&& c.accepted == number_of(rows, both(kind, accepting(fixture)))
    &&& c.rejected == number_of(rows, both(kind, rejecting(fixture)))
    &&& c.quality_rejected == number_of(rows, both(kind, rejecting_quality(fixture)))
    &&& c.accepted_verified == number_of(rows, both(kind, accepting_verified(fixture)))
    &&& c.accepted_unverified == number_of(rows, both(kind, accepting_unverified(fixture)))
    &&& c.accepted_apply_blocked == number_of(rows, both(kind, accepting_blocked(fixture)))
    &&& c.missing_review == number_of(rows, both(kind, unattested(fixture)))
    &&& c.deferred == number_of(rows, both(kind, put_off()))
    &&& c.policy_chains == number_of(rows, both(kind, combined()))
    &&& c.eligible_executions == number_of(rows, both(kind, comparable(ctx, fixture)))
    &&& c.attempts == sum_over(rows, kind, attempts_made())
    &&& c.launched == sum_over(rows, kind, attempts_launched())
    &&& c.prelaunch == sum_over(rows, kind, attempts_held_back())
    &&& c.launch_unknown == sum_over(rows, kind, attempts_unclear())
    &&& c.continuations == sum_over(rows, kind, attempts_continuing())
    &&& forall|word: Seq<char>|
        holds_number(
            c.verification,
            word,
            #[trigger] number_of(rows, both(kind, verified_as(word))),
        )
    &&& forall|word: Seq<char>|
        holds_number(
            c.first_attempt_checks,
            word,
            #[trigger] number_of(rows, both(kind, first_checked_as(word))),
        )
}

proof fn number_grows(rows: Seq<Option<GoalFacts>>, kind: spec_fn(GoalFacts) -> bool)
    requires
        rows.len() > 0,
    ensures
        number_of(rows, kind) == number_of(rows.drop_last(), kind) + one_if(
            rows.last() is Some && kind(rows.last()->0),
        ),
{
    reveal(Seq::filter);
}

proof fn number_of_none(kind: spec_fn(GoalFacts) -> bool)
    ensures
        number_of(Seq::empty(), kind) == 0,
{
    reveal(Seq::filter);
}

proof fn launches_are_numbers(attempts: Seq<AttemptFacts>)
    ensures
        launches(attempts, LaunchKnown::Launched) == attempts.filter(
            |a: AttemptFacts| was_launched(a),
        ).len(),
        launches(attempts, LaunchKnown::NotLaunched) == attempts.filter(
            |a: AttemptFacts| was_held_back(a),
        ).len(),
        launches(attempts, LaunchKnown::Unknown) == attempts.filter(
            |a: AttemptFacts| !was_launched(a) && !was_held_back(a),
        ).len(),
    decreases attempts.len(),
{
    reveal(Seq::filter);
    if attempts.len() > 0 {
        launches_are_numbers(attempts.drop_last());
        let a = attempts.last();
        assert(optional_view(a.launch) == (match a.launch {
            Some(t) => Some(t@),
            None => None,
        }));
        assert(launch_of(a) == LaunchKnown::Launched <==> was_launched(a));
        assert(launch_of(a) == LaunchKnown::NotLaunched <==> was_held_back(a));
    }
}

proof fn triggers_are_continuations(attempts: Seq<AttemptFacts>)
    ensures
        attempts.len() == 0 ==> triggers(attempts).len() == 0,
        attempts.len() > 0 ==> triggers(attempts).len() == attempts.subrange(
            1,
            attempts.len() as int,
        ).filter(|a: AttemptFacts| a.role@ != "task"@).len(),
    decreases attempts.len(),
{
    reveal(Seq::filter);
    if attempts.len() > 1 {
        triggers_are_continuations(attempts.drop_last());
        let rest = attempts.subrange(1, attempts.len() as int);
        assert(rest.drop_last() =~= attempts.drop_last().subrange(1, attempts.len() - 1));
        assert(rest.last() == attempts.last());
    }
}

proof fn contexts_agree(a: ContextKey, b: ContextKey)
    ensures
        same_key(a, b) == agree(a, b),
{
}

/// What one goal adds is one where it is of a kind.
#[verifier::rlimit(60)]
#[verifier::spinoff_prover]
proof fn one_goal_counts(g: GoalFacts, ctx: ContextKey, fixture: bool)
    ensures
        ({
            let s = share_of(g, ctx, fixture);
            &&& s.goals == 1
            &&& s.reviewed == one_if(attested(fixture)(g))
            &&& s.accepted == one_if(accepting(fixture)(g))
            &&& s.rejected == one_if(rejecting(fixture)(g))
            &&& s.quality_rejected == one_if(rejecting_quality(fixture)(g))
            &&& s.accepted_verified == one_if(accepting_verified(fixture)(g))
            &&& s.accepted_unverified == one_if(accepting_unverified(fixture)(g))
            &&& s.accepted_apply_blocked == one_if(accepting_blocked(fixture)(g))
            &&& s.missing_review == one_if(unattested(fixture)(g))
            &&& s.deferred == one_if(put_off()(g))
            &&& s.policy_chains == one_if(combined()(g))
            &&& s.attempts == attempts_made()(g)
            &&& s.launched == attempts_launched()(g)
            &&& s.prelaunch == attempts_held_back()(g)
            &&& s.launch_unknown == attempts_unclear()(g)
            &&& s.continuations == attempts_continuing()(g)
            &&& s.verification == seq![verification_word(g.verification)]
            &&& s.first_attempt_checks == seq![first_checks(g)]
        }),
{
    reveal(share_of);
    launches_are_numbers(g.attempts@);
    triggers_are_continuations(g.attempts@);
    assert(review_counts(g, fixture) == is_attested(g, fixture));
    if g.attempts@.len() == 0 {
        assert(launches(g.attempts@, LaunchKnown::NotLaunched) == 0);
    }
    if is_chain(g) && g.attempts@.len() == 1 && g.contributing_attempts <= 1 && g.questions == 0 {
        let i = choose|i: int|
            0 <= i < g.attempts@.len() && ((#[trigger] g.attempts@[i]).has_parent
                || g.attempts@[i].role@ != "executor"@);
        assert(i == 0);
    }
    assert(is_chain(g) == combined()(g));
}

#[verifier::rlimit(60)]
#[verifier::spinoff_prover]
proof fn comparable_goals_are_not_excluded(g: GoalFacts, ctx: ContextKey, fixture: bool)
    ensures
        (exclusions_of(g, ctx, fixture).len() == 0) == comparable(ctx, fixture)(g),
        share_of(g, ctx, fixture).eligible_executions == one_if(comparable(ctx, fixture)(g)),
{
    reveal(share_of);
    let attempts = g.attempts@;
    let origin = origin_of(g);
    reveal_strlit("unknown");
    reveal_strlit("ordinary");
    reveal_strlit("synthetic");
    assert("unknown"@[0] != "ordinary"@[0]);
    assert("unknown"@[0] != "synthetic"@[0]);
    assert("ordinary"@[0] != "synthetic"@[0]);
    if let Some(d) = g.decision {
        contexts_agree(d.context, ctx);
    }
    if attempts.len() == 1 {
        assert(failed_operationally(attempts) == (attempts[0].failure is Some && attempts[0].failure
            != Some(FailureKind::TargetVerification)));
        assert(is_chain(g) == (g.contributing_attempts > 1 || g.questions > 0
            || attempts[0].has_parent || attempts[0].role@ != "executor"@)) by {
            if exists|i: int|
                0 <= i < attempts.len() && ((#[trigger] attempts[i]).has_parent || attempts[i].role@
                    != "executor"@) {
                let i = choose|i: int|
                    0 <= i < attempts.len() && ((#[trigger] attempts[i]).has_parent
                        || attempts[i].role@ != "executor"@);
                assert(i == 0);
            }
        }
    } else {
        assert(is_chain(g));
    }
}

proof fn first_checks_have_one_word(g: GoalFacts, word: Seq<char>)
    ensures
        (first_checks(g) == word) == first_checked_as(word)(g),
{
    reveal_strlit("passed");
    reveal_strlit("failed");
    reveal_strlit("inconclusive");
    assert("passed"@[0] != "failed"@[0]);
    assert("passed"@[0] != "inconclusive"@[0]);
    assert("failed"@[0] != "inconclusive"@[0]);
    if g.attempts@.len() > 0 && g.attempts@[0].result is Some {
        let statuses = g.attempts@[0].result->0.check_statuses@;
        let all = forall|i: int|
            0 <= i < statuses.len() ==> #[trigger] statuses[i] == CheckStatus::Passed;
        let some = exists|i: int|
            0 <= i < statuses.len() && #[trigger] statuses[i] == CheckStatus::Failed;
        if statuses.len() > 0 && all && some {
            let i = choose|i: int|
                0 <= i < statuses.len() && #[trigger] statuses[i] == CheckStatus::Failed;
            assert(statuses[i] == CheckStatus::Passed);
        }
    }
}

/// Whether a share is that of the goals of a kind among the rows.
spec fn shares_goals(
    s: Share,
    rows: Seq<Option<GoalFacts>>,
    kind: spec_fn(GoalFacts) -> bool,
    ctx: ContextKey,
    fixture: bool,
) -> bool {
    &&& s.goals == number_of(rows, kind)
    &&& s.reviewed == number_of(rows, both(kind, attested(fixture)))
    &&& s.accepted == number_of(rows, both(kind, accepting(fixture)))
    &&& s.rejected == number_of(rows, both(kind, rejecting(fixture)))
    &&& s.quality_rejected == number_of(rows, both(kind, rejecting_quality(fixture)))
    &&& s.accepted_verified == number_of(rows, both(kind, accepting_verified(fixture)))
    &&& s.accepted_unverified == number_of(rows, both(kind, accepting_unverified(fixture)))
    &&& s.accepted_apply_blocked == number_of(rows, both(kind, accepting_blocked(fixture)))
    &&& s.missing_review == number_of(rows, both(kind, unattested(fixture)))
    &&& s.deferred == number_of(rows, both(kind, put_off()))
    &&& s.policy_chains == number_of(rows, both(kind, combined()))
    &&& s.eligible_executions == number_of(rows, both(kind, comparable(ctx, fixture)))
    &&& s.attempts == sum_over(rows, kind, attempts_made())
    &&& s.launched == sum_over(rows, kind, attempts_launched())
    &&& s.prelaunch == sum_over(rows, kind, attempts_held_back())
    &&& s.launch_unknown == sum_over(rows, kind, attempts_unclear())
    &&& s.continuations == sum_over(rows, kind, attempts_continuing())
}

/// Whether the words of a share are those of the goals of a kind among the rows.
spec fn shares_words(
    s: Share,
    rows: Seq<Option<GoalFacts>>,
    kind: spec_fn(GoalFacts) -> bool,
    word: Seq<char>,
) -> bool {
    &&& occurrences(s.verification, word) == number_of(rows, both(kind, verified_as(word)))
    &&& occurrences(s.first_attempt_checks, word) == number_of(
        rows,
        both(kind, first_checked_as(word)),
    )
}

proof fn occurrences_with_one(keys: Seq<Seq<char>>, key: Seq<char>, word: Seq<char>)
    ensures
        occurrences(keys + seq![key], word) == occurrences(keys, word) + one_if(key == word),
{
    assert((keys + seq![key]).drop_last() =~= keys);
}

proof fn nothing_shares(kind: spec_fn(GoalFacts) -> bool, ctx: ContextKey, fixture: bool)
    ensures
        shares_goals(nothing(), Seq::empty(), kind, ctx, fixture),
{
    number_of_none(kind);
    number_of_none(both(kind, attested(fixture)));
    number_of_none(both(kind, accepting(fixture)));
    number_of_none(both(kind, rejecting(fixture)));
    number_of_none(both(kind, rejecting_quality(fixture)));
    number_of_none(both(kind, accepting_verified(fixture)));
    number_of_none(both(kind, accepting_unverified(fixture)));
    number_of_none(both(kind, accepting_blocked(fixture)));
    number_of_none(both(kind, unattested(fixture)));
    number_of_none(both(kind, put_off()));
    number_of_none(both(kind, combined()));
    number_of_none(both(kind, comparable(ctx, fixture)));
}

#[verifier::rlimit(60)]
#[verifier::spinoff_prover]
proof fn numbers_grow(
    rows: Seq<Option<GoalFacts>>,
    kind: spec_fn(GoalFacts) -> bool,
    s: Share,
    more: Share,
    ctx: ContextKey,
    fixture: bool,
)
    requires
        rows.len() > 0,
        shares_goals(s, rows.drop_last(), kind, ctx, fixture),
        rows.last() is Some && kind(rows.last()->0) ==> more == share_of(
            rows.last()->0,
            ctx,
            fixture,
        ),
    ensures
        rows.last() is Some && kind(rows.last()->0) ==> shares_goals(
            together(s, more),
            rows,
            kind,
            ctx,
            fixture,
        ),
        !(rows.last() is Some && kind(rows.last()->0)) ==> shares_goals(s, rows, kind, ctx, fixture),
{
    number_grows(rows, kind);
    number_grows(rows, both(kind, attested(fixture)));
    number_grows(rows, both(kind, accepting(fixture)));
    number_grows(rows, both(kind, rejecting(fixture)));
    number_grows(rows, both(kind, rejecting_quality(fixture)));
    number_grows(rows, both(kind, accepting_verified(fixture)));
    number_grows(rows, both(kind, accepting_unverified(fixture)));
    number_grows(rows, both(kind, accepting_blocked(fixture)));
    number_grows(rows, both(kind, unattested(fixture)));
    number_grows(rows, both(kind, put_off()));
    number_grows(rows, both(kind, combined()));
    number_grows(rows, both(kind, comparable(ctx, fixture)));
    if let Some(g) = rows.last() {
        one_goal_counts(g, ctx, fixture);
        comparable_goals_are_not_excluded(g, ctx, fixture);
    }
}

proof fn words_grow(
    rows: Seq<Option<GoalFacts>>,
    kind: spec_fn(GoalFacts) -> bool,
    s: Share,
    ctx: ContextKey,
    fixture: bool,
    word: Seq<char>,
)
    requires
        rows.len() > 0,
        shares_words(s, rows.drop_last(), kind, word),
    ensures
        rows.last() is Some && kind(rows.last()->0) ==> shares_words(
            together(s, share_of(rows.last()->0, ctx, fixture)),
            rows,
            kind,
            word,
        ),
        !(rows.last() is Some && kind(rows.last()->0)) ==> shares_words(s, rows, kind, word),
{
    number_grows(rows, both(kind, verified_as(word)));
    number_grows(rows, both(kind, first_checked_as(word)));
    if let Some(g) = rows.last() {
        one_goal_counts(g, ctx, fixture);
        first_checks_have_one_word(g, word);
        occurrences_with_one(s.verification, verification_word(g.verification), word);
        occurrences_with_one(s.first_attempt_checks, first_checks(g), word);
    }
}

proof fn total_counts(rows: Seq<Option<GoalFacts>>, ctx: ContextKey, fixture: bool)
    ensures
        shares_goals(total_share(rows, ctx, fixture), rows, any_goal(), ctx, fixture),
    decreases rows.len(),
{
    if rows.len() == 0 {
        assert(rows =~= Seq::empty());
        nothing_shares(any_goal(), ctx, fixture);
    } else {
        total_counts(rows.drop_last(), ctx, fixture);
        let s = total_share(rows.drop_last(), ctx, fixture);
        match rows.last() {
            Some(g) => numbers_grow(rows, any_goal(), s, share_of(g, ctx, fixture), ctx, fixture),
            None => numbers_grow(rows, any_goal(), s, nothing(), ctx, fixture),
        }
    }
}

proof fn total_words(rows: Seq<Option<GoalFacts>>, ctx: ContextKey, fixture: bool, word: Seq<char>)
    ensures
        shares_words(total_share(rows, ctx, fixture), rows, any_goal(), word),
    decreases rows.len(),
{
    if rows.len() == 0 {
        assert(rows =~= Seq::empty());
        number_of_none(both(any_goal(), verified_as(word)));
        number_of_none(both(any_goal(), first_checked_as(word)));
    } else {
        total_words(rows.drop_last(), ctx, fixture, word);
        let s = total_share(rows.drop_last(), ctx, fixture);
        words_grow(rows, any_goal(), s, ctx, fixture, word);
        if rows.last() is None {
            assert(s.verification + Seq::<Seq<char>>::empty() =~= s.verification);
            assert(s.first_attempt_checks + Seq::<Seq<char>>::empty() =~= s.first_attempt_checks);
        }
    }
}

proof fn origin_counts(rows: Seq<Option<GoalFacts>>, ctx: ContextKey, fixture: bool, o: Seq<char>)
    ensures
        shares_goals(
            share_or_nothing(origin_share(rows, ctx, fixture, o)),
            rows,
            from_origin(o),
            ctx,
            fixture,
        ),
        origin_share(rows, ctx, fixture, o) is Some <==> number_of(rows, from_origin(o)) > 0,
    decreases rows.len(),
{
    if rows.len() == 0 {
        assert(rows =~= Seq::empty());
        nothing_shares(from_origin(o), ctx, fixture);
    } else {
        origin_counts(rows.drop_last(), ctx, fixture, o);
        let s = share_or_nothing(origin_share(rows.drop_last(), ctx, fixture, o));
        number_grows(rows, from_origin(o));
        match rows.last() {
            Some(g) => {
                assert((origin_of(g) == o) == from_origin(o)(g));
                numbers_grow(rows, from_origin(o), s, share_of(g, ctx, fixture), ctx, fixture);
            },
            None => numbers_grow(rows, from_origin(o), s, nothing(), ctx, fixture),
        }
    }
}

proof fn origin_words(
    rows: Seq<Option<GoalFacts>>,
    ctx: ContextKey,
    fixture: bool,
    o: Seq<char>,
    word: Seq<char>,
)
    ensures
        shares_words(
            share_or_nothing(origin_share(rows, ctx, fixture, o)),
            rows,
            from_origin(o),
            word,
        ),
    decreases rows.len(),
{
    if rows.len() == 0 {
        assert(rows =~= Seq::empty());
        number_of_none(both(from_origin(o), verified_as(word)));
        number_of_none(both(from_origin(o), first_checked_as(word)));
    } else {
        origin_words(rows.drop_last(), ctx, fixture, o, word);
        let s = share_or_nothing(origin_share(rows.drop_last(), ctx, fixture, o));
        words_grow(rows, from_origin(o), s, ctx, fixture, word);
        if let Some(g) = rows.last() {
            assert((origin_of(g) == o) == from_origin(o)(g));
        }
    }
}

/// The goals that can be compared and belong to a cohort: they ran the same behaviour under the same
/// version, with the same observed model and effort, and were decided by the same policy.
pub open spec fn in_cohort(ctx: ContextKey, fixture: bool, cohort: Seq<char>) -> spec_fn(
    GoalFacts,
) -> bool {
    |g: GoalFacts|
        {
            let first = g.attempts@[0];
            &&& comparable(ctx, fixture)(g)
            &&& cohort == g.decision->0.selected_behavior@ + "|"@ + first.harness_version->0@ + "|"@ + (
            if first.observed_model is Some {
                first.observed_model->0@
            } else {
                "unknown"@
            }) + "|"@ + (if first.observed_effort is Some {
                first.observed_effort->0@
            } else {
                "unknown"@
            }) + "|"@ + g.decision->0.policy_version@
        }
}

proof fn cohort_counts(rows: Seq<Option<GoalFacts>>, ctx: ContextKey, fixture: bool, k: Seq<char>)
    ensures
        shares_goals(
            share_or_nothing(cohort_share(rows, ctx, fixture, k)),
            rows,
            in_cohort(ctx, fixture, k),
            ctx,
            fixture,
        ),
        cohort_share(rows, ctx, fixture, k) is Some <==> number_of(rows, in_cohort(ctx, fixture, k)) > 0,
    decreases rows.len(),
{
    if rows.len() == 0 {
        assert(rows =~= Seq::empty());
        nothing_shares(in_cohort(ctx, fixture, k), ctx, fixture);
    } else {
        cohort_counts(rows.drop_last(), ctx, fixture, k);
        let s = share_or_nothing(cohort_share(rows.drop_last(), ctx, fixture, k));
        number_grows(rows, in_cohort(ctx, fixture, k));
        match rows.last() {
            Some(g) => {
                comparable_goals_are_not_excluded(g, ctx, fixture);
                assert((cohort_of(g, ctx, fixture) == Some(k)) == in_cohort(ctx, fixture, k)(g));
                numbers_grow(
                    rows,
                    in_cohort(ctx, fixture, k),
                    s,
                    share_of(g, ctx, fixture),
                    ctx,
                    fixture,
                );
            },
            None => numbers_grow(rows, in_cohort(ctx, fixture, k), s, nothing(), ctx, fixture),
        }
    }
}

proof fn cohort_words(
    rows: Seq<Option<GoalFacts>>,
    ctx: ContextKey,
    fixture: bool,
    k: Seq<char>,
    word: Seq<char>,
)
    ensures
        shares_words(
            share_or_nothing(cohort_share(rows, ctx, fixture, k)),
            rows,
            in_cohort(ctx, fixture, k),
            word,
        ),
    decreases rows.len(),
{
    let kind = in_cohort(ctx, fixture, k);
    if rows.len() == 0 {
        assert(rows =~= Seq::empty());
        number_of_none(both(kind, verified_as(word)));
        number_of_none(both(kind, first_checked_as(word)));
    } else {
        cohort_words(rows.drop_last(), ctx, fixture, k, word);
        let s = share_or_nothing(cohort_share(rows.drop_last(), ctx, fixture, k));
        words_grow(rows, kind, s, ctx, fixture, word);
        if let Some(g) = rows.last() {
            comparable_goals_are_not_excluded(g, ctx, fixture);
            assert((cohort_of(g, ctx, fixture) == Some(k)) == kind(g));
        }
    }
}

/// The rows that a summary counts: the first thousand.
pub open spec fn window_of(rows: Seq<Option<GoalFacts>>) -> Seq<Option<GoalFacts>> {
    if rows.len() > 1000 {
        rows.take(1000)
    } else {
        rows
    }
}

/// A summary counts the goals of its window: how many there are, how many have a review that counts, how
/// many of these say "accepted" and how many say anything else, how many acceptances are of verified work,
/// how many rejections fault the work, how many goals wait, were combined or can be compared, and how many
/// attempts were made, launched, held back or went on.
pub proof fn a_summary_counts_its_goals(
    out: Summary,
    rows: Seq<Option<GoalFacts>>,
    ctx: ContextKey,
    fixture: bool,
)
    requires
        summarizes(out, rows, ctx, fixture),
    ensures
        counts_goals(out.counts, window_of(rows), any_goal(), ctx, fixture),
        out.truncated == (rows.len() > 1000),
        agree(out.context, ctx),
{
    let window = window_of(rows);
    total_counts(window, ctx, fixture);
    contexts_agree(out.context, ctx);
    let s = total_share(window, ctx, fixture);
    assert(counted(out.counts, s));
    assert forall|word: Seq<char>| true implies holds_number(
        out.counts.verification,
        word,
        #[trigger] number_of(window, both(any_goal(), verified_as(word))),
    ) by {
        total_words(window, ctx, fixture, word);
        assert(out.counts.verification.at(word) == out.counts.verification.at(word));
    }
    assert forall|word: Seq<char>| true implies holds_number(
        out.counts.first_attempt_checks,
        word,
        #[trigger] number_of(window, both(any_goal(), first_checked_as(word))),
    ) by {
        total_words(window, ctx, fixture, word);
        assert(out.counts.first_attempt_checks.at(word) == out.counts.first_attempt_checks.at(word));
    }
}

/// Under every origin a summary counts the goals that were stated to come from there, and no others; an
/// origin that no goal has is not in it.
pub proof fn a_summary_counts_by_origin(
    out: Summary,
    rows: Seq<Option<GoalFacts>>,
    ctx: ContextKey,
    fixture: bool,
    origin: Seq<char>,
)
    requires
        summarizes(out, rows, ctx, fixture),
    ensures
        out.origins.at(origin) is Some <==> number_of(window_of(rows), from_origin(origin)) > 0,
        out.origins.at(origin) matches Some(c) ==> counts_goals(
            c,
            window_of(rows),
            from_origin(origin),
            ctx,
            fixture,
        ),
{
    let window = window_of(rows);
    origin_counts(window, ctx, fixture, origin);
    assert(entry_counts(out.origins.at(origin), origin_share(window, ctx, fixture, origin)));
    if let Some(c) = out.origins.at(origin) {
        assert forall|word: Seq<char>| true implies holds_number(
            c.verification,
            word,
            #[trigger] number_of(window, both(from_origin(origin), verified_as(word))),
        ) by {
            origin_words(window, ctx, fixture, origin, word);
            assert(c.verification.at(word) == c.verification.at(word));
        }
        assert forall|word: Seq<char>| true implies holds_number(
            c.first_attempt_checks,
            word,
            #[trigger] number_of(window, both(from_origin(origin), first_checked_as(word))),
        ) by {
            origin_words(window, ctx, fixture, origin, word);
            assert(c.first_attempt_checks.at(word) == c.first_attempt_checks.at(word));
        }
    }
}

/// Under every cohort a summary counts the comparable goals that belong to it, and no others; a cohort that
/// no goal belongs to is not in it.
pub proof fn a_summary_counts_by_cohort(
    out: Summary,
    rows: Seq<Option<GoalFacts>>,
    ctx: ContextKey,
    fixture: bool,
    cohort: Seq<char>,
)
    requires
        summarizes(out, rows, ctx, fixture),
    ensures
        out.resources.at(cohort) is Some <==> number_of(
            window_of(rows),
            in_cohort(ctx, fixture, cohort),
        ) > 0,
        out.resources.at(cohort) matches Some(c) ==> counts_goals(
            c,
            window_of(rows),
            in_cohort(ctx, fixture, cohort),
            ctx,
            fixture,
        ),
{
    let window = window_of(rows);
    let kind = in_cohort(ctx, fixture, cohort);
    cohort_counts(window, ctx, fixture, cohort);
    assert(entry_counts(out.resources.at(cohort), cohort_share(window, ctx, fixture, cohort)));
    if let Some(c) = out.resources.at(cohort) {
        assert forall|word: Seq<char>| true implies holds_number(
            c.verification,
            word,
            #[trigger] number_of(window, both(kind, verified_as(word))),
        ) by {
            cohort_words(window, ctx, fixture, cohort, word);
            assert(c.verification.at(word) == c.verification.at(word));
        }
        assert forall|word: Seq<char>| true implies holds_number(
            c.first_attempt_checks,
            word,
            #[trigger] number_of(window, both(kind, first_checked_as(word))),
        ) by {
            cohort_words(window, ctx, fixture, cohort, word);
            assert(c.first_attempt_checks.at(word) == c.first_attempt_checks.at(word));
        }
    }
}

/// The rows with a goal of a kind, in order.
pub open spec fn rows_of(rows: Seq<Option<GoalFacts>>, kind: spec_fn(GoalFacts) -> bool) -> Seq<
    Option<GoalFacts>,
> {
    rows.filter(|row: Option<GoalFacts>| row is Some && kind(row->0))
}

/// Whether a reference is to a goal: to its run, its delivery, its facts, and the review and the annotation
/// that it has.
pub open spec fn refers_to(r: ReferenceView, g: GoalFacts) -> bool {
    &&& r.run_id == g.run_id@
    &&& r.delivery == g.delivery@
    &&& r.facts == g.facts@
    &&& g.feedback is Some ==> r.feedback_id == g.feedback->0.id@
    &&& g.feedback is None ==> r.feedback_id == ""@
    &&& r.annotation_sequence == (if g.annotation is Some {
        g.annotation->0.sequence
    } else {
        0
    })
}

proof fn references_are_to_comparable_goals(rows: Seq<Option<GoalFacts>>, ctx: ContextKey, fixture: bool)
    ensures
        ({
            let list = references_to(rows, ctx, fixture);
            let chosen = rows_of(rows, comparable(ctx, fixture));
            &&& list.len() == chosen.len()
            &&& forall|k: int|
                0 <= k < list.len() ==> chosen[k] is Some && refers_to(#[trigger] list[k], chosen[k]->0)
                    && in_cohort(ctx, fixture, list[k].cohort)(chosen[k]->0)
        }),
    decreases rows.len(),
{
    reveal(Seq::filter);
    if rows.len() > 0 {
        references_are_to_comparable_goals(rows.drop_last(), ctx, fixture);
        let earlier = references_to(rows.drop_last(), ctx, fixture);
        let list = references_to(rows, ctx, fixture);
        let chosen = rows_of(rows, comparable(ctx, fixture));
        if let Some(g) = rows.last() {
            comparable_goals_are_not_excluded(g, ctx, fixture);
            if let Some(cohort) = cohort_of(g, ctx, fixture) {
                assert(chosen == rows_of(rows.drop_last(), comparable(ctx, fixture)).push(rows.last()));
                assert(in_cohort(ctx, fixture, cohort)(g));
                assert(refers_to(list.last(), g));
            }
        }
        assert forall|k: int| 0 <= k < list.len() implies chosen[k] is Some && refers_to(
            #[trigger] list[k],
            chosen[k]->0,
        ) && in_cohort(ctx, fixture, list[k].cohort)(chosen[k]->0) by {
            if k < earlier.len() {
                assert(list[k] == earlier[k]);
            }
        }
    }
}

/// A summary refers to every goal that can be compared, in order, each under the cohort that counts it.
pub proof fn a_summary_refers_to_what_it_compares(
    out: Summary,
    rows: Seq<Option<GoalFacts>>,
    ctx: ContextKey,
    fixture: bool,
)
    requires
        summarizes(out, rows, ctx, fixture),
    ensures
        ({
            let chosen = rows_of(window_of(rows), comparable(ctx, fixture));
            &&& out.references@.len() == chosen.len()
            &&& forall|k: int|
                0 <= k < out.references@.len() ==> chosen[k] is Some && refers_to(
                    (#[trigger] out.references@[k])@,
                    chosen[k]->0,
                ) && in_cohort(ctx, fixture, out.references@[k].cohort@)(chosen[k]->0)
        }),
{
    let window = window_of(rows);
    references_are_to_comparable_goals(window, ctx, fixture);
    let list = references_to(window, ctx, fixture);
    assert(reference_views(out.references@) == list);
    assert(reference_views(out.references@).len() == out.references@.len());
    assert forall|k: int| 0 <= k < out.references@.len() implies (#[trigger] out.references@[k])@
        == list[k] by {
        assert(reference_views(out.references@)[k] == out.references@[k]@);
    }
}

/// Whether the time of an attempt is counted: it has a result, and was launched or took time.
pub open spec fn is_timed(a: AttemptFacts) -> bool {
    a.result is Some && (was_launched(a) || a.result->0.duration_ms > 0)
}

/// How many attempts of a goal are timed.
pub open spec fn timed_attempts() -> spec_fn(GoalFacts) -> nat {
    |g: GoalFacts| g.attempts@.filter(|a: AttemptFacts| is_timed(a)).len()
}

/// How long the timed attempts took.
pub open spec fn time_of(attempts: Seq<AttemptFacts>) -> nat
    decreases attempts.len(),
{
    if attempts.len() == 0 {
        0
    } else {
        time_of(attempts.drop_last()) + (if is_timed(attempts.last()) {
            attempts.last().result->0.duration_ms as nat
        } else {
            0
        })
    }
}

/// How long the timed attempts of a goal took.
pub open spec fn time_taken() -> spec_fn(GoalFacts) -> nat {
    |g: GoalFacts| time_of(g.attempts@)
}

/// How many attempts of a goal waited for admission.
pub open spec fn waits() -> spec_fn(GoalFacts) -> nat {
    |g: GoalFacts| g.attempts@.filter(|a: AttemptFacts| a.wait_ms is Some).len()
}

/// The goals of which it is known how long they took.
pub open spec fn ended() -> spec_fn(GoalFacts) -> bool {
    |g: GoalFacts| g.elapsed_ms is Some
}

/// The goals whose attested review reports how long the repair took.
pub open spec fn repaired(fixture: bool) -> spec_fn(GoalFacts) -> bool {
    |g: GoalFacts| is_attested(g, fixture) && g.annotation->0.annotation.repair_minutes is Some
}

/// A number as far as it fits.
pub open spec fn as_far_as_fits(n: nat) -> nat {
    if n <= u64::MAX {
        n
    } else {
        u64::MAX as nat
    }
}

proof fn sum_of_both(a: Seq<u64>, b: Seq<u64>)
    ensures
        sum(a + b) == sum(a) + sum(b),
    decreases b.len(),
{
    if b.len() == 0 {
        assert(a + b =~= a);
    } else {
        sum_of_both(a, b.drop_last());
        assert((a + b).drop_last() =~= a + b.drop_last());
        assert((a + b).last() == b.last());
    }
}

proof fn sum_of_one(v: u64)
    ensures
        sum(seq![v]) == v,
        sum(Seq::<u64>::empty()) == 0,
{
    assert(seq![v].drop_last() =~= Seq::empty());
    assert(sum(seq![v].drop_last()) == 0);
}

proof fn attempts_are_timed(attempts: Seq<AttemptFacts>, planned: bool)
    ensures
        ({
            let v = attempts_values(attempts, planned);
            &&& v.harness_ms.len() == attempts.filter(|a: AttemptFacts| is_timed(a)).len()
            &&& sum(v.harness_ms) == time_of(attempts)
            &&& v.admission_wait_ms.len() == attempts.filter(|a: AttemptFacts| a.wait_ms is Some).len()
            &&& v.end_to_end_ms.len() == 0
            &&& v.repair_minutes.len() == 0
        }),
    decreases attempts.len(),
{
    reveal(Seq::filter);
    if attempts.len() > 0 {
        attempts_are_timed(attempts.drop_last(), planned);
        let a = attempts.last();
        launches_are_numbers(seq![a]);
        assert((launch_of(a) == LaunchKnown::Launched) == was_launched(a));
        let more = attempt_values(a, planned).harness_ms;
        sum_of_both(attempts_values(attempts.drop_last(), planned).harness_ms, more);
        if let Some(r) = a.result {
            sum_of_one(r.duration_ms);
        } else {
            sum_of_one(0);
        }
    }
}

/// What is there, or nothing.
pub open spec fn values_or_none(v: Option<Values>) -> Values {
    match v {
        Some(values) => values,
        None => no_values(),
    }
}

proof fn origin_is_timed(rows: Seq<Option<GoalFacts>>, fixture: bool, o: Seq<char>)
    ensures
        ({
            let v = values_or_none(origin_values(rows, fixture, o));
            &&& v.harness_ms.len() == sum_over(rows, from_origin(o), timed_attempts())
            &&& sum(v.harness_ms) == sum_over(rows, from_origin(o), time_taken())
            &&& v.admission_wait_ms.len() == sum_over(rows, from_origin(o), waits())
            &&& v.end_to_end_ms.len() == number_of(rows, both(from_origin(o), ended()))
            &&& v.repair_minutes.len() == number_of(rows, both(from_origin(o), repaired(fixture)))
        }),
    decreases rows.len(),
{
    if rows.len() == 0 {
        assert(rows =~= Seq::empty());
        number_of_none(both(from_origin(o), ended()));
        number_of_none(both(from_origin(o), repaired(fixture)));
        sum_of_one(0);
    } else {
        origin_is_timed(rows.drop_last(), fixture, o);
        number_grows(rows, both(from_origin(o), ended()));
        number_grows(rows, both(from_origin(o), repaired(fixture)));
        let earlier = values_or_none(origin_values(rows.drop_last(), fixture, o));
        if let Some(g) = rows.last() {
            reveal(goal_values);
            attempts_are_timed(g.attempts@, g.planned);
            assert((origin_of(g) == o) == from_origin(o)(g));
            assert(review_counts(g, fixture) == is_attested(g, fixture));
            sum_of_both(earlier.harness_ms, goal_values(g, fixture).harness_ms);
        }
    }
}

/// What a summary says of the cost of an origin: how many of its attempts are timed and how long they took
/// together, how many waited for admission, how many goals ended, how many repairs were reported, and what an
/// accepted goal took, where at least one was accepted and every attempt is known to have been launched and is
/// timed. No cash is ever estimated.
pub proof fn a_summary_measures_by_origin(
    out: Summary,
    rows: Seq<Option<GoalFacts>>,
    ctx: ContextKey,
    fixture: bool,
    origin: Seq<char>,
)
    requires
        summarizes(out, rows, ctx, fixture),
    ensures
        out.economics.at(origin) is Some <==> out.origins.at(origin) is Some,
        out.economics.at(origin) matches Some(e) ==> {
            let window = window_of(rows);
            let from = from_origin(origin);
            let accepted = number_of(window, both(from, accepting(fixture)));
            let known = accepted > 0 && e.harness_ms.count == sum_over(window, from, attempts_launched())
                && sum_over(window, from, attempts_unclear()) == 0;
            &&& e.harness_ms.count == sum_over(window, from, timed_attempts())
            &&& e.harness_ms.total == as_far_as_fits(sum_over(window, from, time_taken()))
            &&& e.admission_wait_ms.count == sum_over(window, from, waits())
            &&& e.end_to_end_ms.count == number_of(window, both(from, ended()))
            &&& e.reported_repair_minutes.count == number_of(window, both(from, repaired(fixture)))
            &&& e.harness_ms_per_accepted is Some <==> known
            &&& known ==> e.harness_ms_per_accepted->0 == e.harness_ms.total as int / accepted as int
            &&& e.cash_cost is None
        },
{
    let window = window_of(rows);
    origin_counts(window, ctx, fixture, origin);
    origin_is_timed(window, fixture, origin);
    let s = origin_share(window, ctx, fixture, origin);
    let v = origin_values(window, fixture, origin);
    assert(entry_counts(out.origins.at(origin), s));
    assert(entry_measures(out.economics.at(origin), v, s));
    if let Some(e) = out.economics.at(origin) {
        let accepted = s->0.accepted as int;
        if accepted > 0 {
            assert(0 <= e.harness_ms.total as int / accepted <= e.harness_ms.total) by (nonlinear_arith)
                requires
                    accepted > 0,
                    e.harness_ms.total >= 0,
            ;
        }
    }
}

/// Whether an attempt of a goal failed for another reason than its checks.
pub open spec fn broke_down(g: GoalFacts) -> bool {
    exists|i: int|
        0 <= i < g.attempts@.len() && (#[trigger] g.attempts@[i]).failure is Some
            && g.attempts@[i].failure->0 != FailureKind::TargetVerification
}

/// Whether an attempt ran with another model or effort than was resolved for it.
pub open spec fn ran_as_another(a: AttemptFacts) -> bool {
    ||| a.observed_model is Some && !(a.resolved_model is Some && a.observed_model->0@
        == a.resolved_model->0@)
    ||| a.observed_effort is Some && !(a.resolved_effort is Some && a.observed_effort->0@
        == a.resolved_effort->0@)
}

/// The goals that are left out of the cohorts for a reason.
pub open spec fn left_out(ctx: ContextKey, reason: Seq<char>) -> spec_fn(GoalFacts) -> bool {
    |g: GoalFacts|
        {
            let attempts = g.attempts@;
            ||| reason == "unfinished_execution"@ && (attempts.len() == 0 || !attempts[0].completed
                || attempts[0].result is None)
            ||| reason == "combined_or_continued_delivery"@ && combined()(g)
            ||| reason == "operational_failure"@ && broke_down(g)
            ||| reason == "incompatible_or_unknown_task_check_context"@ && !(g.decision is Some && agree(
                g.decision->0.context,
                ctx,
            ))
            ||| reason == "no_explicit_routine_check_mapping"@ && ctx.mapping is None
            ||| reason == "incomplete_resource_attribution"@ && (attempts.len() == 0
                || attempts[0].harness_version is None || attempts[0].resolved_model is None)
            ||| reason == "observed_substitution"@ && attempts.len() > 0 && ran_as_another(attempts[0])
        }
}

/// Whether a text is one of the reasons that are the same for every goal.
pub open spec fn is_reason(reason: Seq<char>) -> bool {
    ||| reason == "unfinished_execution"@
    ||| reason == "combined_or_continued_delivery"@
    ||| reason == "operational_failure"@
    ||| reason == "incompatible_or_unknown_task_check_context"@
    ||| reason == "no_explicit_routine_check_mapping"@
    ||| reason == "incomplete_resource_attribution"@
    ||| reason == "observed_substitution"@
}

proof fn reasons_differ(origin: Seq<char>)
    ensures
        !is_reason("origin_"@ + origin),
        !is_reason("missing_projection"@),
        "unfinished_execution"@[0] == 'u',
        "combined_or_continued_delivery"@[0] == 'c',
        "operational_failure"@[0] == 'o' && "operational_failure"@[1] == 'p',
        "incompatible_or_unknown_task_check_context"@[0] == 'i'
            && "incompatible_or_unknown_task_check_context"@[6] == 'a',
        "no_explicit_routine_check_mapping"@[0] == 'n',
        "incomplete_resource_attribution"@[0] == 'i' && "incomplete_resource_attribution"@[6] == 'l',
        "observed_substitution"@[0] == 'o' && "observed_substitution"@[1] == 'b',
{
    reveal_strlit("unfinished_execution");
    reveal_strlit("combined_or_continued_delivery");
    reveal_strlit("operational_failure");
    reveal_strlit("incompatible_or_unknown_task_check_context");
    reveal_strlit("no_explicit_routine_check_mapping");
    reveal_strlit("incomplete_resource_attribution");
    reveal_strlit("observed_substitution");
    reveal_strlit("missing_projection");
    reveal_strlit("origin_");
    let named = "origin_"@ + origin;
    assert(named[0] == 'o' && named[1] == 'r');
    assert("missing_projection"@[0] == 'm');
}

proof fn occurrences_in_both(a: Seq<Seq<char>>, b: Seq<Seq<char>>, key: Seq<char>)
    ensures
        occurrences(a + b, key) == occurrences(a, key) + occurrences(b, key),
    decreases b.len(),
{
    if b.len() == 0 {
        assert(a + b =~= a);
    } else {
        occurrences_in_both(a, b.drop_last(), key);
        assert((a + b).drop_last() =~= a + b.drop_last());
        assert((a + b).last() == b.last());
    }
}

proof fn occurrence_when(a: Seq<Seq<char>>, applies: bool, key: Seq<char>, reason: Seq<char>)
    ensures
        occurrences(a + crate::private_evidence::when(applies, key), reason) == occurrences(a, reason) + one_if(
            applies && key == reason,
        ),
{
    if applies {
        occurrences_with_one(a, key, reason);
    } else {
        assert(a + crate::private_evidence::when(applies, key) =~= a);
    }
}

/// The reasons of a goal, by which of them apply.
#[verifier::opaque]
spec fn reasons_by(
    origin: Seq<char>,
    c0: bool,
    c1: bool,
    c2: bool,
    c3: bool,
    c4: bool,
    c5: bool,
    c6: bool,
    c7: bool,
) -> Seq<Seq<char>> {
    crate::private_evidence::when(c0, "origin_"@ + origin) + crate::private_evidence::when(c1, "unfinished_execution"@) + crate::private_evidence::when(
        c2,
        "combined_or_continued_delivery"@,
    ) + crate::private_evidence::when(c3, "operational_failure"@) + crate::private_evidence::when(c4, "incompatible_or_unknown_task_check_context"@) + crate::private_evidence::when(
        c5,
        "no_explicit_routine_check_mapping"@,
    ) + crate::private_evidence::when(c6, "incomplete_resource_attribution"@) + crate::private_evidence::when(c7, "observed_substitution"@)
}

proof fn reasons_occur(
    origin: Seq<char>,
    c0: bool,
    c1: bool,
    c2: bool,
    c3: bool,
    c4: bool,
    c5: bool,
    c6: bool,
    c7: bool,
    reason: Seq<char>,
)
    requires
        is_reason(reason),
    ensures
        occurrences(reasons_by(origin, c0, c1, c2, c3, c4, c5, c6, c7), reason) == one_if(
            (reason == "unfinished_execution"@ && c1) || (reason == "combined_or_continued_delivery"@ && c2)
                || (reason == "operational_failure"@ && c3) || (reason
                == "incompatible_or_unknown_task_check_context"@ && c4) || (reason
                == "no_explicit_routine_check_mapping"@ && c5) || (reason
                == "incomplete_resource_attribution"@ && c6) || (reason == "observed_substitution"@ && c7),
        ),
{
    reveal(reasons_by);
    let none = Seq::<Seq<char>>::empty();
    let k0 = crate::private_evidence::when(c0, "origin_"@ + origin);
    let k1 = k0 + crate::private_evidence::when(c1, "unfinished_execution"@);
    let k2 = k1 + crate::private_evidence::when(c2, "combined_or_continued_delivery"@);
    let k3 = k2 + crate::private_evidence::when(c3, "operational_failure"@);
    let k4 = k3 + crate::private_evidence::when(c4, "incompatible_or_unknown_task_check_context"@);
    let k5 = k4 + crate::private_evidence::when(c5, "no_explicit_routine_check_mapping"@);
    let k6 = k5 + crate::private_evidence::when(c6, "incomplete_resource_attribution"@);
    reasons_differ(origin);
    occurrence_when(none, c0, "origin_"@ + origin, reason);
    assert(none + k0 =~= k0);
    assert(occurrences(none, reason) == 0);
    occurrence_when(k0, c1, "unfinished_execution"@, reason);
    occurrence_when(k1, c2, "combined_or_continued_delivery"@, reason);
    occurrence_when(k2, c3, "operational_failure"@, reason);
    occurrence_when(k3, c4, "incompatible_or_unknown_task_check_context"@, reason);
    occurrence_when(k4, c5, "no_explicit_routine_check_mapping"@, reason);
    occurrence_when(k5, c6, "incomplete_resource_attribution"@, reason);
    occurrence_when(k6, c7, "observed_substitution"@, reason);
}

proof fn breaking_down(g: GoalFacts)
    ensures
        failed_operationally(g.attempts@) == broke_down(g),
{
    let attempts = g.attempts@;
    if failed_operationally(attempts) {
        let i = choose|i: int|
            0 <= i < attempts.len() && (#[trigger] attempts[i]).failure is Some && attempts[i].failure
                != Some(FailureKind::TargetVerification);
        assert(g.attempts@[i].failure->0 != FailureKind::TargetVerification);
    }
    if broke_down(g) {
        let i = choose|i: int|
            0 <= i < g.attempts@.len() && (#[trigger] g.attempts@[i]).failure is Some
                && g.attempts@[i].failure->0 != FailureKind::TargetVerification;
        assert(attempts[i].failure != Some(FailureKind::TargetVerification));
    }
}

proof fn chains_are_combined(g: GoalFacts, ctx: ContextKey, fixture: bool)
    ensures
        is_chain(g) == combined()(g),
{
    one_goal_counts(g, ctx, fixture);
    reveal(share_of);
}

proof fn running_as_another(a: AttemptFacts)
    ensures
        substituted(a) == ran_as_another(a),
{
}

proof fn reasons_of_a_goal(g: GoalFacts, ctx: ContextKey, fixture: bool)
    ensures
        share_of(g, ctx, fixture).exclusions == reasons_by(
            origin_of(g),
            !((origin_of(g) == "ordinary"@ && !fixture) || (origin_of(g) == "synthetic"@ && fixture)),
            g.attempts@.len() == 0 || !g.attempts@[0].completed || g.attempts@[0].result is None,
            is_chain(g),
            failed_operationally(g.attempts@),
            g.decision is None || !same_key(g.decision->0.context, ctx),
            ctx.mapping is None,
            g.attempts@.len() == 0 || g.attempts@[0].harness_version is None
                || g.attempts@[0].resolved_model is None,
            g.attempts@.len() > 0 && substituted(g.attempts@[0]),
        ),
{
    reveal(share_of);
    reveal(reasons_by);
}

proof fn a_goal_is_left_out_once(g: GoalFacts, ctx: ContextKey, fixture: bool, reason: Seq<char>)
    requires
        is_reason(reason),
    ensures
        occurrences(share_of(g, ctx, fixture).exclusions, reason) == one_if(
            left_out(ctx, reason)(g),
        ),
{
    let attempts = g.attempts@;
    let origin = origin_of(g);
    reasons_of_a_goal(g, ctx, fixture);
    reasons_occur(
        origin,
        !((origin == "ordinary"@ && !fixture) || (origin == "synthetic"@ && fixture)),
        attempts.len() == 0 || !attempts[0].completed || attempts[0].result is None,
        is_chain(g),
        failed_operationally(attempts),
        g.decision is None || !same_key(g.decision->0.context, ctx),
        ctx.mapping is None,
        attempts.len() == 0 || attempts[0].harness_version is None || attempts[0].resolved_model is None,
        attempts.len() > 0 && substituted(attempts[0]),
        reason,
    );
    breaking_down(g);
    chains_are_combined(g, ctx, fixture);
    if attempts.len() > 0 {
        running_as_another(attempts[0]);
    }
    if let Some(d) = g.decision {
        contexts_agree(d.context, ctx);
    }
}

proof fn left_out_in_all(rows: Seq<Option<GoalFacts>>, ctx: ContextKey, fixture: bool, reason: Seq<char>)
    requires
        is_reason(reason),
    ensures
        occurrences(total_share(rows, ctx, fixture).exclusions, reason) == number_of(
            rows,
            left_out(ctx, reason),
        ),
    decreases rows.len(),
{
    if rows.len() == 0 {
        assert(rows =~= Seq::empty());
        number_of_none(left_out(ctx, reason));
    } else {
        left_out_in_all(rows.drop_last(), ctx, fixture, reason);
        number_grows(rows, left_out(ctx, reason));
        let s = total_share(rows.drop_last(), ctx, fixture);
        match rows.last() {
            Some(g) => {
                a_goal_is_left_out_once(g, ctx, fixture, reason);
                occurrences_in_both(s.exclusions, share_of(g, ctx, fixture).exclusions, reason);
            },
            None => {
                reasons_differ(Seq::empty());
                occurrences_with_one(s.exclusions, "missing_projection"@, reason);
            },
        }
    }
}

/// A summary says how many goals were left out of the cohorts, for each reason: they are unfinished,
/// continued, failed for another reason than their checks, belong to another context, are not mapped, cannot
/// be attributed, or ran as something else.
pub proof fn a_summary_counts_what_is_left_out(
    out: Summary,
    rows: Seq<Option<GoalFacts>>,
    ctx: ContextKey,
    fixture: bool,
    reason: Seq<char>,
)
    requires
        summarizes(out, rows, ctx, fixture),
        is_reason(reason),
    ensures
        holds_number(
            out.counts.exclusions,
            reason,
            number_of(window_of(rows), left_out(ctx, reason)),
        ),
{
    left_out_in_all(window_of(rows), ctx, fixture, reason);
    assert(tallies(out.counts.exclusions, total_share(window_of(rows), ctx, fixture).exclusions));
    assert(out.counts.exclusions.at(reason) == out.counts.exclusions.at(reason));
}

} // verus!
