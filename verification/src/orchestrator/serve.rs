//! The project owner and its view. Every tick the owner of a root looks at its world, adopts attached
//! work whose owner has gone, follows unowned attached work, keeps the verdicts of ready results current,
//! and applies what policy allows. It never finishes, launches or kills anything.

use vstd::prelude::*;

use crate::text::{
    before, before_is_irreflexive, before_is_total, before_is_transitive, copy_optional, decimal,
    decimal_of, fit, fitting, holds, optional_str, optional_view, same, same_optional, sorts_before,
    texts,
};
use crate::text_map::TextMap;
use crate::record::{
    ApplicationState, Decision, LifecycleState, ReviewState, RunMode, RunRecord, Validity,
    WorkResult,
};
use crate::process::IdentityState;
use crate::orchestrator::attach::{AttachmentRecord, OwnerState};

verus! {

/// How long a finished run stays in the view, in microseconds.
pub const VIEW_MICROS: i128 = 3_600_000_000;

/// What the owner of a root remembers between ticks.
#[derive(Debug, Clone, PartialEq, Eq)]
pub struct Owner {
    pub last_signal: Option<String>,
    /// The work signal of each followed run when it was last evaluated.
    pub work: TextMap<String>,
    /// The world signal of each ready result when it was last checked.
    pub checked: TextMap<String>,
}

/// Where the time of one tick went, in milliseconds, and how much was done.
#[derive(Debug, Clone, Copy, PartialEq, Eq, Structural)]
pub struct Cost {
    pub signal: u64,
    pub load: u64,
    pub follow: u64,
    pub evaluate: u64,
    pub recheck: u64,
    pub apply: u64,
    pub runs: u64,
    pub followed: u64,
    pub evaluated: u64,
    pub rechecked: u64,
}

impl Cost {
    /// Whether nothing was evaluated.
    pub fn idle(&self) -> (r: bool)
        ensures
            r == (self.evaluated == 0 && self.rechecked == 0),
    {
        self.evaluated == 0 && self.rechecked == 0
    }

    /// The cost in words.
    pub open spec fn words(self) -> Seq<char> {
        "signal "@ + decimal(self.signal as nat) + " ms · "@ + decimal(self.runs as nat)
            + " runs loaded in "@ + decimal(self.load as nat) + " ms · "@ + decimal(
            self.followed as nat,
        ) + " followed in "@ + decimal(self.follow as nat) + " ms · "@ + decimal(
            self.evaluated as nat,
        ) + " evaluated in "@ + decimal(self.evaluate as nat) + " ms · "@ + decimal(
            self.rechecked as nat,
        ) + " rechecked in "@ + decimal(self.recheck as nat) + " ms · auto-apply "@ + decimal(
            self.apply as nat,
        ) + " ms"@
    }

    /// The cost in words.
    pub fn text(&self) -> (r: String)
        ensures
            r@ == self.words(),
    {
        let mut out = "signal ".to_owned();
        out.push_str(decimal_of(self.signal).as_str());
        out.push_str(" ms · ");
        out.push_str(decimal_of(self.runs).as_str());
        out.push_str(" runs loaded in ");
        out.push_str(decimal_of(self.load).as_str());
        out.push_str(" ms · ");
        out.push_str(decimal_of(self.followed).as_str());
        out.push_str(" followed in ");
        out.push_str(decimal_of(self.follow).as_str());
        out.push_str(" ms · ");
        out.push_str(decimal_of(self.evaluated).as_str());
        out.push_str(" evaluated in ");
        out.push_str(decimal_of(self.evaluate).as_str());
        out.push_str(" ms · ");
        out.push_str(decimal_of(self.rechecked).as_str());
        out.push_str(" rechecked in ");
        out.push_str(decimal_of(self.recheck).as_str());
        out.push_str(" ms · auto-apply ");
        out.push_str(decimal_of(self.apply).as_str());
        out.push_str(" ms");
        out
    }
}

/// What one tick did.
#[derive(Debug, Clone, PartialEq, Eq)]
pub struct Tick {
    pub moved: bool,
    pub adopted: bool,
    pub persisted: bool,
    pub applied: bool,
    pub digest: Option<String>,
    /// The first error of the tick. What failed is tried again on the next one.
    pub error: Option<String>,
    pub cost: Cost,
}

impl Tick {
    /// Keeps the first error of the tick.
    pub fn report(&mut self, error: &str)
        ensures
            *final(self) == (Tick { error: final(self).error, ..*old(self) }),
            match old(self).error {
                Some(first) => final(self).error == Some(first),
                None => optional_view(final(self).error) == Some(error@),
            },
    {
        if self.error.is_none() {
            self.error = Some(error.to_owned());
        }
    }

    /// Whether the runs have to be read again after the tick.
    pub fn changed(&self) -> (r: bool)
        ensures
            r == (self.adopted || self.persisted || self.applied),
    {
        self.adopted || self.persisted || self.applied
    }
}

/// Whether the world moved: a signal that cannot be had does not say so.
pub open spec fn has_moved(now: Option<Seq<char>>, previous: Option<Seq<char>>) -> bool {
    now is Some && now != previous
}

impl Owner {
    /// An owner that has seen nothing.
    pub fn new() -> (r: Self)
        ensures
            r.last_signal is None,
            r.work.entries@.len() == 0,
            r.checked.entries@.len() == 0,
            r.wf(),
    {
        Owner { last_signal: None, work: TextMap::new(), checked: TextMap::new() }
    }

    /// Takes in the world signal of a tick, and says whether the world moved.
    pub fn observe(&mut self, signal: Option<String>) -> (r: bool)
        ensures
            r == has_moved(optional_view(signal), optional_view(old(self).last_signal)),
            *final(self) == (Owner {
                last_signal: (if signal is Some {
                    signal
                } else {
                    old(self).last_signal
                }),
                ..*old(self)
            }),
    {
        match signal {
            None => false,
            Some(now) => {
                let moved = !same_optional(&self.last_signal, Some(now.as_str()));
                self.last_signal = Some(now);
                moved
            },
        }
    }

    /// Whether followed work has to be evaluated: the world moved, or the work did.
    pub fn needs_evaluation(&self, id: &str, work: &str, world_moved: bool) -> (r: bool)
        ensures
            r == has_to_be_evaluated(*self, id@, work@, world_moved),
    {
        if world_moved {
            return true;
        }
        match self.work.get(id) {
            Some(known) => !same(known.as_str(), work),
            None => true,
        }
    }

    /// Whether a ready result has to be checked: it was not yet at this world signal. Without a signal
    /// nothing is checked.
    pub fn needs_check(&self, run: &RunRecord) -> (r: bool)
        ensures
            r == (waits_for_review(*run) && self.last_signal is Some && optional_view(
                self.checked.at(run.id@),
            ) != optional_view(self.last_signal)),
    {
        if !awaits_review(run) {
            return false;
        }
        match (&self.last_signal, self.checked.get(run.id.as_str())) {
            (None, _) => false,
            (Some(now), Some(seen)) => !same(now.as_str(), seen.as_str()),
            (Some(_), None) => true,
        }
    }
}

/// What is known of the owner of attached work from the state of its process.
pub open spec fn owner_now(owner: Option<IdentityState>) -> OwnerState {
    match owner {
        Some(IdentityState::ExactLive) => OwnerState::Live,
        Some(IdentityState::Gone) => OwnerState::Gone,
        Some(IdentityState::Reused) => OwnerState::Gone,
        Some(IdentityState::Unknown) => OwnerState::Unknown,
        None => OwnerState::Unknown,
    }
}

/// What is known of the owner of attached work: no owner, or one whose process cannot be told, is unknown.
pub fn live_owner_state(owner: Option<IdentityState>) -> (r: OwnerState)
    ensures
        r == owner_now(owner),
{
    match owner {
        None => OwnerState::Unknown,
        Some(state) => match state {
            IdentityState::ExactLive => OwnerState::Live,
            IdentityState::Gone => OwnerState::Gone,
            IdentityState::Reused => OwnerState::Gone,
            IdentityState::Unknown => OwnerState::Unknown,
        },
    }
}

/// Whether a run is attached work that is not finished.
pub open spec fn is_unfinished(run: RunRecord) -> bool {
    run.mode == RunMode::Attached && run.outcome.lifecycle != LifecycleState::Finished
}

/// Whether attached work lost its owner: it was recorded as live, and its process is gone.
pub open spec fn is_orphaned(run: RunRecord, owner: Option<IdentityState>) -> bool {
    &&& is_unfinished(run)
    &&& run.attachment matches Some(a) && a.owner_state == OwnerState::Live
    &&& owner_now(owner) == OwnerState::Gone
}

/// Adopts attached work that lost its owner, and says whether it did. `owner` is the state of the process
/// that is recorded as the owner.
pub fn adopt(run: &mut RunRecord, owner: Option<IdentityState>) -> (r: bool)
    ensures
        r == is_orphaned(*old(run), owner),
        *final(run) == (if r {
            RunRecord {
                attachment: Some(
                    AttachmentRecord {
                        owner_state: OwnerState::Adopted,
                        ..old(run).attachment->0
                    },
                ),
                ..*old(run)
            }
        } else {
            *old(run)
        }),
{
    if run.mode != RunMode::Attached || run.outcome.lifecycle == LifecycleState::Finished {
        return false;
    }
    if live_owner_state(owner) != OwnerState::Gone {
        return false;
    }
    if let Some(a) = &mut run.attachment {
        if a.owner_state == OwnerState::Live {
            a.owner_state = OwnerState::Adopted;
            return true;
        }
    }
    false
}

/// Work is adopted once: adopted work is not orphaned, whatever becomes of the process.
pub proof fn work_is_adopted_once(run: RunRecord, owner: Option<IdentityState>)
    requires
        run.attachment matches Some(a) && a.owner_state == OwnerState::Adopted,
    ensures
        !is_orphaned(run, owner),
{
}

/// Whether the project owner follows a run: unfinished attached work that no live process owns.
pub fn follows(run: &RunRecord, owner: Option<IdentityState>) -> (r: bool)
    ensures
        r == (is_unfinished(*run) && run.attachment is Some && owner_now(owner) != OwnerState::Live),
{
    run.mode == RunMode::Attached && run.outcome.lifecycle != LifecycleState::Finished
        && run.attachment.is_some() && live_owner_state(owner) != OwnerState::Live
}

/// Whether a run is a ready result that was not applied.
pub open spec fn is_ready_unapplied(run: RunRecord) -> bool {
    run.outcome.work_result == WorkResult::Ready && run.outcome.application
        != ApplicationState::Applied
}

/// Whether a run is a ready result that nobody has accepted, rejected or applied yet.
pub open spec fn waits_for_review(run: RunRecord) -> bool {
    run.outcome.review == ReviewState::Pending && is_ready_unapplied(run)
}

/// Whether a run is a ready result that nobody has accepted, rejected or applied yet.
pub fn awaits_review(run: &RunRecord) -> (r: bool)
    ensures
        r == waits_for_review(*run),
{
    run.outcome.review == ReviewState::Pending && run.outcome.work_result == WorkResult::Ready
        && run.outcome.application != ApplicationState::Applied
}

/// Whether a verdict is stored over the one before it: when it says something new (`worth_recording`), and
/// the first time the work is checked at all.
pub fn worth_storing(stored: Option<&Validity>, worth_recording: bool) -> (r: bool)
    ensures
        r == (stored is None || worth_recording),
{
    stored.is_none() || worth_recording
}

/// Whether a run is applied by policy: finished attached work that is ready, unreviewed and unapplied, and
/// may be integrated.
pub open spec fn is_auto_applied(run: RunRecord) -> bool {
    &&& run.mode == RunMode::Attached
    &&& run.outcome.lifecycle == LifecycleState::Finished
    &&& run.outcome.work_result == WorkResult::Ready
    &&& run.outcome.review == ReviewState::Pending
    &&& run.outcome.application == ApplicationState::NotApplied
    &&& run.attachment matches Some(a) && a.capabilities.integrate
}

/// The runs below `n` that are applied by policy, in order.
pub open spec fn auto_applied(runs: Seq<RunRecord>, n: int) -> Seq<usize>
    decreases n,
{
    if n <= 0 {
        Seq::empty()
    } else if is_auto_applied(runs[n - 1]) {
        auto_applied(runs, n - 1).push((n - 1) as usize)
    } else {
        auto_applied(runs, n - 1)
    }
}

/// The runs that are applied by policy, in order.
pub fn ready_for_auto_apply(runs: &Vec<RunRecord>) -> (r: Vec<usize>)
    ensures
        r@ == auto_applied(runs@, runs@.len() as int),
{
    let mut out: Vec<usize> = Vec::new();
    let mut i: usize = 0;
    while i < runs.len()
        invariant
            i <= runs.len(),
            out@ == auto_applied(runs@, i as int),
        decreases runs.len() - i,
    {
        let run = &runs[i];
        let integrate = match &run.attachment {
            Some(a) => a.capabilities.integrate,
            None => false,
        };
        if run.mode == RunMode::Attached && run.outcome.lifecycle == LifecycleState::Finished
            && run.outcome.work_result == WorkResult::Ready && run.outcome.review
            == ReviewState::Pending && run.outcome.application == ApplicationState::NotApplied
            && integrate {
            out.push(i);
        }
        i += 1;
    }
    out
}

/// Nothing is applied by policy that its attachment does not let be integrated, or that a person has
/// already decided.
pub proof fn policy_applies_only_what_it_may(runs: Seq<RunRecord>, n: int, k: int)
    requires
        0 <= n <= runs.len() <= usize::MAX,
        0 <= k < auto_applied(runs, n).len(),
    ensures
        ({
            let i = auto_applied(runs, n)[k] as int;
            &&& 0 <= i < n
            &&& is_auto_applied(runs[i])
        }),
    decreases n,
{
    if n > 0 {
        let earlier = auto_applied(runs, n - 1);
        if k < earlier.len() {
            policy_applies_only_what_it_may(runs, n - 1, k);
        }
    }
}

proof fn listed_where_allowed(runs: Seq<RunRecord>, n: int)
    requires
        0 <= n <= runs.len() <= usize::MAX,
    ensures
        forall|k: int|
            0 <= k < auto_applied(runs, n).len() ==> (#[trigger] auto_applied(runs, n)[k]) < n,
        forall|k: int, l: int|
            0 <= k < l < auto_applied(runs, n).len() ==> (#[trigger] auto_applied(runs, n)[k]) < (
            #[trigger] auto_applied(runs, n)[l]),
        forall|i: int|
            0 <= i < n ==> (auto_applied(runs, n).contains(i as usize) <==> is_auto_applied(
                #[trigger] runs[i],
            )),
    decreases n,
{
    if n > 0 {
        listed_where_allowed(runs, n - 1);
        let earlier = auto_applied(runs, n - 1);
        let all = auto_applied(runs, n);
        assert forall|i: int| 0 <= i < n implies (all.contains(i as usize) <==> is_auto_applied(
            #[trigger] runs[i],
        )) by {
            if is_auto_applied(runs[n - 1]) {
                assert(all.last() == n - 1);
                if i < n - 1 {
                    if earlier.contains(i as usize) {
                        let k = choose|k: int| 0 <= k < earlier.len() && earlier[k] == i;
                        assert(all[k] == i);
                    }
                    if all.contains(i as usize) {
                        let k = choose|k: int| 0 <= k < all.len() && all[k] == i;
                        assert(earlier[k] == i);
                    }
                }
            } else if i == n - 1 && earlier.contains(i as usize) {
                let k = choose|k: int| 0 <= k < earlier.len() && earlier[k] == i;
                assert(earlier[k] < n - 1);
            }
        }
    }
}

/// What is applied without a person: exactly the attached work that finished, is ready, was not applied,
/// that nobody has reviewed yet, and that its attachment lets be integrated. Each is listed once, in the
/// order of the runs.
pub proof fn policy_applies_exactly_unreviewed_ready_work(runs: Seq<RunRecord>, i: int)
    requires
        0 <= i < runs.len() <= usize::MAX,
    ensures
        ({
            let listed = auto_applied(runs, runs.len() as int);
            let run = runs[i];
            &&& listed.contains(i as usize) <==> {
                &&& run.mode == RunMode::Attached
                &&& run.outcome.lifecycle == LifecycleState::Finished
                &&& run.outcome.work_result == WorkResult::Ready
                &&& run.outcome.review == ReviewState::Pending
                &&& run.outcome.application == ApplicationState::NotApplied
                &&& run.attachment is Some
                &&& run.attachment->0.capabilities.integrate
            }
            &&& forall|k: int|
                0 <= k < listed.len() ==> (#[trigger] listed[k]) < runs.len()
            &&& forall|k: int, l: int|
                0 <= k < l < listed.len() ==> (#[trigger] listed[k]) < (#[trigger] listed[l])
        }),
{
    listed_where_allowed(runs, runs.len() as int);
}

/// A review takes work out of the hands of the policy: what a person accepted, rejected or was not yet
/// asked about is never listed, whatever else holds of it.
pub proof fn reviewed_work_is_never_applied_by_policy(runs: Seq<RunRecord>, k: int)
    requires
        runs.len() <= usize::MAX,
        0 <= k < auto_applied(runs, runs.len() as int).len(),
    ensures
        ({
            let i = auto_applied(runs, runs.len() as int)[k] as int;
            &&& 0 <= i < runs.len()
            &&& runs[i].outcome.review == ReviewState::Pending
            &&& runs[i].outcome.application == ApplicationState::NotApplied
            &&& runs[i].outcome.work_result == WorkResult::Ready
        }),
{
    let listed = auto_applied(runs, runs.len() as int);
    listed_where_allowed(runs, runs.len() as int);
    let i = listed[k] as int;
    assert(listed.contains(i as usize));
    policy_applies_exactly_unreviewed_ready_work(runs, i);
}

/// Work is taken over exactly where it is attached and unfinished, was recorded as owned by a live process,
/// and that process is known to be gone or to have become another one. A process of which nothing is known
/// loses nothing.
pub proof fn only_orphans_are_adopted(run: RunRecord, owner: Option<IdentityState>)
    ensures
        is_orphaned(run, owner) <==> {
            &&& run.mode == RunMode::Attached
            &&& run.outcome.lifecycle != LifecycleState::Finished
            &&& run.attachment is Some
            &&& run.attachment->0.owner_state == OwnerState::Live
            &&& owner == Some(IdentityState::Gone) || owner == Some(IdentityState::Reused)
        },
        owner_now(owner) == OwnerState::Live <==> owner == Some(IdentityState::ExactLive),
        owner_now(owner) != OwnerState::Adopted,
{
}

/// What is adopted is followed: it is unfinished, attached, and its owner is known not to live.
pub proof fn orphans_are_followed(run: RunRecord, owner: Option<IdentityState>)
    requires
        is_orphaned(run, owner),
    ensures
        is_unfinished(run) && run.attachment is Some && owner_now(owner) != OwnerState::Live,
        owner is Some,
        owner != Some(IdentityState::ExactLive),
        owner != Some(IdentityState::Unknown),
{
}

/// A result waits for review exactly as long as it is ready, its review is pending and it is not applied.
pub proof fn results_wait_until_decided(run: RunRecord)
    ensures
        waits_for_review(run) <==> {
            &&& run.outcome.review == ReviewState::Pending
            &&& run.outcome.work_result == WorkResult::Ready
            &&& run.outcome.application != ApplicationState::Applied
        },
{
}

/// The world moves exactly where it is seen and what is seen is not what was seen last. A world that cannot
/// be seen does not move, and the first sight of it is a move.
pub proof fn the_world_moves_where_it_differs(now: Option<Seq<char>>, previous: Option<Seq<char>>)
    ensures
        now is None ==> !has_moved(now, previous),
        now is Some && previous is None ==> has_moved(now, previous),
        now is Some && previous is Some ==> (has_moved(now, previous) <==> now->0 != previous->0),
{
}

/// The view holds exactly the runs that are unfinished, wait for review or finished less than an hour ago,
/// each once and by their identifiers.
pub proof fn the_view_holds_what_is_open_or_recent(
    rows: Seq<usize>,
    runs: Seq<RunRecord>,
    now: i64,
    k: int,
)
    requires
        are_rows(rows, runs, runs.len() as int, now),
        0 <= k < runs.len() <= usize::MAX,
    ensures
        rows.contains(k as usize) <==> {
            ||| runs[k].outcome.lifecycle != LifecycleState::Finished
            ||| runs[k].outcome.review == ReviewState::Pending && runs[k].outcome.work_result
                == WorkResult::Ready && runs[k].outcome.application != ApplicationState::Applied
            ||| runs[k].completed_at is Some && now - runs[k].completed_at->0 < 3_600_000_000
        },
        rows.no_duplicates(),
        forall|i: int, j: int|
            0 <= i < j < rows.len() ==> !before(
                runs[#[trigger] rows[j] as int].id@,
                runs[#[trigger] rows[i] as int].id@,
            ),
{
    if rows.contains(k as usize) {
        let i = choose|i: int| 0 <= i < rows.len() && rows[i] == k;
        assert(rows[i] == k);
    }
    if in_view(runs[k], now) {
        let i = choose|i: int| 0 <= i < rows.len() && #[trigger] rows[i] == k;
        assert(rows[i] == k as usize);
    }
    assert forall|i: int, j: int| 0 <= i < j < rows.len() implies !before(
        runs[#[trigger] rows[j] as int].id@,
        runs[#[trigger] rows[i] as int].id@,
    ) && rows[i] != rows[j] by {
        let a = runs[rows[i] as int].id@;
        let b = runs[rows[j] as int].id@;
        assert(shown_before(runs, rows[i] as int, rows[j] as int));
        before_is_irreflexive(a);
        if before(a, b) && before(b, a) {
            before_is_transitive(a, b, a);
        }
    }
}

/// The decision that the stored verdict on a run makes.
pub fn stored_decision(run: &RunRecord) -> (r: Option<Decision>)
    ensures
        r == (match run.coherence {
            Some(c) => match c.validity {
                Some(v) => Some(v.decision),
                None => None,
            },
            None => None,
        }),
{
    match &run.coherence {
        Some(c) => match &c.validity {
            Some(v) => Some(v.decision),
            None => None,
        },
        None => None,
    }
}

/// Whether a run is in the view: it is active, it waits for review, or it finished within the last hour.
pub open spec fn in_view(run: RunRecord, now: i64) -> bool {
    ||| run.outcome.lifecycle != LifecycleState::Finished
    ||| waits_for_review(run)
    ||| run.completed_at matches Some(at) && now - at < VIEW_MICROS
}

fn is_in_view(run: &RunRecord, now: i64) -> (r: bool)
    ensures
        r == in_view(*run, now),
{
    let recent = match run.completed_at {
        Some(at) => now as i128 - (at as i128) < VIEW_MICROS,
        None => false,
    };
    run.outcome.lifecycle != LifecycleState::Finished || awaits_review(run) || recent
}

/// Whether one run stands before another in the view: by identifier, and in order where they share one.
pub open spec fn shown_before(runs: Seq<RunRecord>, a: int, b: int) -> bool {
    before(runs[a].id@, runs[b].id@) || runs[a].id@ == runs[b].id@ && a < b
}

/// Whether `rows` are the runs below `n` that are in the view, in order.
pub open spec fn are_rows(rows: Seq<usize>, runs: Seq<RunRecord>, n: int, now: i64) -> bool {
    &&& forall|i: int|
        0 <= i < rows.len() ==> (#[trigger] rows[i]) < n && in_view(runs[rows[i] as int], now)
    &&& forall|i: int, j: int|
        0 <= i < j < rows.len() ==> shown_before(
            runs,
            #[trigger] rows[i] as int,
            #[trigger] rows[j] as int,
        )
    &&& forall|k: int|
        0 <= k < n && in_view(#[trigger] runs[k], now) ==> exists|i: int|
            0 <= i < rows.len() && #[trigger] rows[i] == k
}

fn insert_row(rows: &mut Vec<usize>, runs: &Vec<RunRecord>, n: usize, now: i64)
    requires
        n < runs@.len(),
        are_rows(old(rows)@, runs@, n as int, now),
        in_view(runs@[n as int], now),
    ensures
        are_rows(final(rows)@, runs@, n + 1, now),
{
    let ghost was = rows@;
    let mut p: usize = 0;
    while p < rows.len() && !sorts_before(runs[n].id.as_str(), runs[rows[p]].id.as_str())
        invariant
            n < runs@.len(),
            rows@ == was,
            p <= rows@.len(),
            are_rows(was, runs@, n as int, now),
            forall|i: int|
                0 <= i < p ==> !before(
                    runs@[n as int].id@,
                    runs@[#[trigger] was[i] as int].id@,
                ),
        decreases rows@.len() - p,
    {
        p += 1;
    }
    rows.insert(p, n);
    proof {
        let new = rows@;
        assert(new == was.insert(p as int, n));
        assert forall|i: int| 0 <= i < new.len() implies (#[trigger] new[i]) < n + 1 && in_view(
            runs@[new[i] as int],
            now,
        ) by {
            if i < p {
                assert(new[i] == was[i]);
            } else if i > p {
                assert(new[i] == was[i - 1]);
            }
        }
        assert forall|i: int, j: int| 0 <= i < j < new.len() implies shown_before(
            runs@,
            #[trigger] new[i] as int,
            #[trigger] new[j] as int,
        ) by {
            let a = if i < p {
                was[i]
            } else if i == p {
                n
            } else {
                was[i - 1]
            };
            if i < p && j == p {
                before_is_total(runs@[was[i] as int].id@, runs@[n as int].id@);
            } else if i == p {
                let q = j - 1;
                assert(new[j] == was[q]);
                if q > p {
                    assert(shown_before(runs@, was[p as int] as int, was[q] as int));
                    if before(runs@[was[p as int] as int].id@, runs@[was[q] as int].id@) {
                        before_is_transitive(
                            runs@[n as int].id@,
                            runs@[was[p as int] as int].id@,
                            runs@[was[q] as int].id@,
                        );
                    }
                }
            } else if i < p && j < p {
                assert(new[i] == was[i] && new[j] == was[j]);
            } else if i < p {
                assert(new[i] == was[i] && new[j] == was[j - 1]);
            } else {
                assert(new[i] == was[i - 1] && new[j] == was[j - 1]);
            }
        }
        assert forall|k: int| 0 <= k < n + 1 && in_view(#[trigger] runs@[k], now) implies exists|i: int|
            0 <= i < new.len() && #[trigger] new[i] == k by {
            if k == n {
                assert(new[p as int] == n);
            } else {
                let i = choose|i: int| 0 <= i < was.len() && #[trigger] was[i] == k;
                if i < p {
                    assert(new[i] == k);
                } else {
                    assert(new[i + 1] == k);
                }
            }
        }
    }
}

/// The runs in the view, in a stable order.
pub fn view_rows(runs: &Vec<RunRecord>, now: i64) -> (r: Vec<usize>)
    ensures
        are_rows(r@, runs@, runs@.len() as int, now),
{
    let mut rows: Vec<usize> = Vec::new();
    let mut n: usize = 0;
    while n < runs.len()
        invariant
            n <= runs.len(),
            are_rows(rows@, runs@, n as int, now),
        decreases runs.len() - n,
    {
        if is_in_view(&runs[n], now) {
            insert_row(&mut rows, runs, n, now);
        }
        n += 1;
    }
    rows
}

/// A result that waits for review never leaves the view, however long ago it finished.
pub proof fn waiting_results_stay_in_view(rows: Seq<usize>, runs: Seq<RunRecord>, now: i64, k: int)
    requires
        are_rows(rows, runs, runs.len() as int, now),
        0 <= k < runs.len(),
        waits_for_review(runs[k]),
    ensures
        exists|i: int| 0 <= i < rows.len() && #[trigger] rows[i] == k,
{
}

/// What the view shows, so that each tick prints only what changed.
#[derive(Debug, Clone, PartialEq, Eq)]
pub struct ProjectView {
    pub shown: TextMap<String>,
    pub last_block: Vec<String>,
    pub last_header: Option<String>,
}

/// The lines of the view: an optional header, one line per run with the first eight characters of its
/// identifier, and a word on an empty view.
pub open spec fn block(header: Option<Seq<char>>, rows: Seq<(String, String)>) -> Seq<Seq<char>> {
    let lines = rows.map_values(|r: (String, String)| row_line(r.0@, r.1@));
    match header {
        Some(text) => if rows.len() == 0 {
            seq![text, "no Work in the last hour"@]
        } else {
            seq![text] + lines
        },
        None => lines,
    }
}

/// The line of one run.
pub open spec fn row_line(id: Seq<char>, line: Seq<char>) -> Seq<char> {
    fitting(id, 8) + " · "@ + line
}

impl ProjectView {
    /// A view that shows nothing.
    pub fn new() -> (r: Self)
        ensures
            r.shown.entries@.len() == 0,
            r.last_block@.len() == 0,
            r.last_header is None,
    {
        ProjectView { shown: TextMap::new(), last_block: Vec::new(), last_header: None }
    }

    /// Takes in the header, and says whether it is a new one.
    pub fn new_header(&mut self, header: Option<&str>) -> (r: bool)
        ensures
            r == (header is Some && optional_view(old(self).last_header) != optional_str(header)),
            *final(self) == (ProjectView { last_header: final(self).last_header, ..*old(self) }),
            optional_view(final(self).last_header) == optional_str(header),
    {
        let changed = header.is_some() && !same_optional(&self.last_header, header);
        self.last_header =
            match header {
                Some(text) => Some(text.to_owned()),
                None => None,
            };
        changed
    }

    /// Whether what is shown of a run changed.
    pub fn is_new(&self, id: &str, line: &str) -> (r: bool)
        ensures
            r == (optional_view(self.shown.at(id@)) != Some(line@)),
    {
        match self.shown.get(id) {
            Some(known) => !same(known.as_str(), line),
            None => true,
        }
    }

    /// The lines to print, with how many lines above are redrawn; none where nothing changed. `rows` holds
    /// the identifier and the line of each run in the view.
    pub fn render(
        &mut self,
        header: Option<&str>,
        rows: &Vec<(String, String)>,
        tty: bool,
    ) -> (r: Option<usize>)
        ensures
            ({
                let lines = block(optional_str(header), rows@);
                if texts(old(self).last_block@) == lines {
                    r is None && *final(self) == *old(self)
                } else {
                    &&& r == Some(
                        if tty {
                            old(self).last_block@.len() as usize
                        } else {
                            0
                        },
                    )
                    &&& texts(final(self).last_block@) == lines
                    &&& *final(self) == (ProjectView { last_block: final(self).last_block, ..*old(self) })
                }
            }),
    {
        let lines = write_block(header, rows);
        if same_lines(&self.last_block, &lines) {
            return None;
        }
        let above: usize = if tty {
            self.last_block.len()
        } else {
            0
        };
        self.last_block = lines;
        Some(above)
    }
}

fn write_block(header: Option<&str>, rows: &Vec<(String, String)>) -> (r: Vec<String>)
    ensures
        texts(r@) == block(optional_str(header), rows@),
{
    let mut lines: Vec<String> = Vec::new();
    let mut offset: usize = 0;
    if let Some(text) = header {
        lines.push(text.to_owned());
        offset = 1;
    }
    let mut i: usize = 0;
    while i < rows.len()
        invariant
            i <= rows.len(),
            offset == (if header is Some {
                1int
            } else {
                0
            }),
            lines@.len() == offset + i,
            header is Some ==> lines@[0]@ == header->0@,
            forall|k: int|
                0 <= k < i ==> (#[trigger] lines@[offset + k])@ == row_line(rows@[k].0@, rows@[k].1@),
        decreases rows.len() - i,
    {
        let mut line = fit(rows[i].0.as_str(), 8);
        line.push_str(" · ");
        line.push_str(rows[i].1.as_str());
        lines.push(line);
        i += 1;
    }
    if header.is_some() && rows.len() == 0 {
        lines.push("no Work in the last hour".to_owned());
    }
    proof {
        let wanted = block(optional_str(header), rows@);
        assert forall|j: int| 0 <= j < lines@.len() implies texts(lines@)[j] == #[trigger] wanted[j] by {
            if offset <= j < offset + rows@.len() {
                assert(lines@[offset + (j - offset)]@ == row_line(
                    rows@[j - offset].0@,
                    rows@[j - offset].1@,
                ));
            }
        }
        assert(texts(lines@) =~= wanted);
    }
    lines
}

fn same_lines(a: &Vec<String>, b: &Vec<String>) -> (r: bool)
    ensures
        r == (texts(a@) == texts(b@)),
{
    if a.len() != b.len() {
        assert(texts(a@).len() != texts(b@).len());
        return false;
    }
    let mut i: usize = 0;
    while i < a.len()
        invariant
            i <= a.len(),
            a.len() == b.len(),
            forall|k: int| 0 <= k < i ==> (#[trigger] a@[k])@ == b@[k]@,
        decreases a.len() - i,
    {
        if !same(a[i].as_str(), b[i].as_str()) {
            assert(texts(a@)[i as int] != texts(b@)[i as int]);
            return false;
        }
        i += 1;
    }
    assert(texts(a@) =~= texts(b@));
    true
}

/// What came of evaluating followed work.
#[derive(Debug, Clone, PartialEq, Eq)]
pub enum Evaluation {
    /// Another owner is active; nothing is forced.
    Busy,
    /// The work finished, or found an owner, meanwhile.
    PassedOver,
    /// It could not be evaluated; the digest is there once the world was observed.
    Failed { digest: Option<String>, error: String },
    /// It was evaluated, and the verdict is not worth storing.
    Unchanged { digest: String },
    /// It was evaluated, and the verdict could not be stored.
    NotStored { digest: String, error: String },
    /// It was evaluated, and the verdict is stored.
    Stored { digest: String },
}

/// The digest of the world that an evaluation observed, if it got so far.
pub open spec fn observed(e: Evaluation) -> Option<String> {
    match e {
        Evaluation::Failed { digest, .. } => digest,
        Evaluation::Unchanged { digest } => Some(digest),
        Evaluation::NotStored { digest, .. } => Some(digest),
        Evaluation::Stored { digest } => Some(digest),
        _ => None,
    }
}

/// What came of checking a result that waits for review.
#[derive(Debug, Clone, PartialEq, Eq)]
pub enum Recheck {
    /// There is no verdict, or none that is worth storing.
    Nothing,
    /// A review or an application is under way.
    Busy,
    /// The run changed since it was read.
    Changed,
    Stored,
    Failed(String),
}

/// A count that one more was added to, as far as it reaches.
pub open spec fn one_more(n: u64) -> u64 {
    if n < u64::MAX {
        (n + 1) as u64
    } else {
        n
    }
}

fn counted_up(n: u64) -> (r: u64)
    ensures
        r == one_more(n),
{
    if n < u64::MAX {
        n + 1
    } else {
        n
    }
}

/// The first of two that is there.
pub open spec fn first_of(a: Option<String>, b: Option<String>) -> Option<String> {
    if a is Some {
        a
    } else {
        b
    }
}

impl Tick {
    /// Keeps the first digest of the tick.
    pub fn note_digest(&mut self, digest: Option<String>)
        ensures
            *final(self) == (Tick { digest: first_of(old(self).digest, digest), ..*old(self) }),
    {
        if self.digest.is_none() {
            self.digest = digest;
        }
    }
}

/// The tick after an evaluation of followed work, but for its error.
pub open spec fn after_evaluation(tick: Tick, e: Evaluation) -> Tick {
    let evaluated = e is Unchanged || e is NotStored || e is Stored;
    Tick {
        persisted: tick.persisted || e is Stored,
        digest: first_of(tick.digest, observed(e)),
        cost: Cost {
            evaluated: if evaluated {
                one_more(tick.cost.evaluated)
            } else {
                tick.cost.evaluated
            },
            ..tick.cost
        },
        ..tick
    }
}

/// The error that an evaluation tells.
pub open spec fn evaluation_error(e: Evaluation) -> Option<Seq<char>> {
    match e {
        Evaluation::Failed { error, .. } => Some(error@),
        Evaluation::NotStored { error, .. } => Some(error@),
        _ => None,
    }
}

/// The first error of a tick after one more.
pub open spec fn kept_error(old: Option<String>, error: Option<Seq<char>>) -> Option<Seq<char>> {
    match old {
        Some(first) => Some(first@),
        None => error,
    }
}

impl Owner {
    /// Whether the memory is in order.
    pub open spec fn wf(self) -> bool {
        self.work.in_order() && self.checked.in_order()
    }

    /// Takes in what came of evaluating followed work. It is remembered as evaluated only once a verdict
    /// was reached and, where it is worth it, stored; whatever else happened is tried again.
    pub fn take_evaluation(&mut self, tick: &mut Tick, id: &str, work: String, e: Evaluation)
        requires
            old(self).wf(),
        ensures
            final(self).wf(),
            final(self).last_signal == old(self).last_signal,
            final(self).checked == old(self).checked,
            remembers_evaluation(*old(self), *final(self), id@, work, e),
            *final(tick) == (Tick {
                error: final(tick).error,
                ..after_evaluation(*old(tick), e)
            }),
            optional_view(final(tick).error) == kept_error(old(tick).error, evaluation_error(e)),
    {
        match e {
            Evaluation::Busy => {},
            Evaluation::PassedOver => {},
            Evaluation::Failed { digest, error } => {
                tick.note_digest(digest);
                tick.report(error.as_str());
            },
            Evaluation::Unchanged { digest } => {
                tick.note_digest(Some(digest));
                tick.cost.evaluated = counted_up(tick.cost.evaluated);
                self.work.insert(id.to_owned(), work);
            },
            Evaluation::NotStored { digest, error } => {
                tick.note_digest(Some(digest));
                tick.cost.evaluated = counted_up(tick.cost.evaluated);
                tick.report(error.as_str());
            },
            Evaluation::Stored { digest } => {
                tick.note_digest(Some(digest));
                tick.cost.evaluated = counted_up(tick.cost.evaluated);
                self.work.insert(id.to_owned(), work);
                tick.persisted = true;
            },
        }
    }

    /// Forgets the work that is no longer followed.
    pub fn forget_work(&mut self, followed: &Vec<String>)
        requires
            old(self).wf(),
        ensures
            final(self).wf(),
            final(self).last_signal == old(self).last_signal,
            final(self).checked == old(self).checked,
            forall|k: Seq<char>|
                #[trigger] final(self).work.at(k) == (if holds(followed@, k) {
                    old(self).work.at(k)
                } else {
                    None
                }),
    {
        self.work.retain(followed);
    }

    /// Takes in what came of checking a result at the world signal that was seen last. The result is
    /// remembered as checked unless its verdict still has to be stored.
    pub fn take_check(&mut self, tick: &mut Tick, id: &str, c: Recheck)
        requires
            old(self).wf(),
            old(self).last_signal is Some,
        ensures
            final(self).wf(),
            final(self).last_signal == old(self).last_signal,
            final(self).work == old(self).work,
            forall|k: Seq<char>|
                optional_view(#[trigger] final(self).checked.at(k)) == optional_view(
                    if k == id@ && (c is Nothing || c is Stored) {
                        old(self).last_signal
                    } else {
                        old(self).checked.at(k)
                    },
                ),
            *final(tick) == (Tick {
                error: final(tick).error,
                persisted: old(tick).persisted || c is Stored,
                cost: Cost { rechecked: one_more(old(tick).cost.rechecked), ..old(tick).cost },
                ..*old(tick)
            }),
            optional_view(final(tick).error) == kept_error(
                old(tick).error,
                match c {
                    Recheck::Failed(error) => Some(error@),
                    _ => None,
                },
            ),
    {
        tick.cost.rechecked = counted_up(tick.cost.rechecked);
        let signal = copy_optional(&self.last_signal);
        match c {
            Recheck::Nothing => {
                if let Some(now) = signal {
                    self.checked.insert(id.to_owned(), now);
                }
            },
            Recheck::Busy => {},
            Recheck::Changed => {},
            Recheck::Stored => {
                if let Some(now) = signal {
                    self.checked.insert(id.to_owned(), now);
                }
                tick.persisted = true;
            },
            Recheck::Failed(error) => {
                tick.report(error.as_str());
            },
        }
    }

    /// Forgets the results that no longer wait for review.
    pub fn forget_checked(&mut self, waiting: &Vec<String>)
        requires
            old(self).wf(),
        ensures
            final(self).wf(),
            final(self).last_signal == old(self).last_signal,
            final(self).work == old(self).work,
            forall|k: Seq<char>|
                #[trigger] final(self).checked.at(k) == (if holds(waiting@, k) {
                    old(self).checked.at(k)
                } else {
                    None
                }),
    {
        self.checked.retain(waiting);
    }
}

/// What came of applying a result under the policy of its project.
#[derive(Debug, Clone, PartialEq, Eq)]
pub enum PolicyApply {
    Applied,
    NotApplied,
    Failed(String),
}

impl Tick {
    /// Takes in an application, and says whether the world has to be looked at again at once: it has
    /// just been changed.
    pub fn take_apply(&mut self, outcome: PolicyApply) -> (r: bool)
        ensures
            r == (outcome is Applied),
            *final(self) == (Tick {
                applied: old(self).applied || outcome is Applied,
                error: final(self).error,
                ..*old(self)
            }),
            optional_view(final(self).error) == kept_error(
                old(self).error,
                match outcome {
                    PolicyApply::Failed(error) => Some(error@),
                    _ => None,
                },
            ),
    {
        match outcome {
            PolicyApply::Applied => {
                self.applied = true;
                true
            },
            PolicyApply::NotApplied => false,
            PolicyApply::Failed(error) => {
                self.report(error.as_str());
                false
            },
        }
    }
}

/// Whether an error is told by an owner in the background: each once, until another follows.
pub fn tells_error(error: &Option<String>, last: &Option<String>) -> (r: bool)
    ensures
        r == (error is Some && optional_view(*error) != optional_view(*last)),
{
    match error {
        Some(text) => !same_optional(last, Some(text.as_str())),
        None => false,
    }
}

/// Whether a tick is only worth a trace: nothing moved and nothing was evaluated.
pub fn is_quiet(tick: &Tick) -> (r: bool)
    ensures
        r == (tick.cost.evaluated == 0 && tick.cost.rechecked == 0 && !tick.moved),
{
    tick.cost.idle() && !tick.moved
}

/// How often a view is drawn again though nothing was committed, in milliseconds.
pub const REDRAW_MILLIS: u64 = 30_000;

/// Whether the view of a project is drawn again: an event was committed, who watches changed, or finished
/// work may have aged out.
pub fn needs_redraw(
    shown: Option<(Option<i64>, &str)>,
    journal: Option<i64>,
    header: &str,
    elapsed_millis: u64,
) -> (r: bool)
    ensures
        r == !(shown matches Some(last) && last.0 == journal && last.1@ == header@ && elapsed_millis
            < REDRAW_MILLIS),
{
    match shown {
        Some((seen, text)) => {
            let unchanged = match (seen, journal) {
                (Some(a), Some(b)) => a == b,
                (None, None) => true,
                _ => false,
            };
            !(unchanged && same(text, header) && elapsed_millis < REDRAW_MILLIS)
        },
        None => true,
    }
}

/// Whether followed work has to be evaluated: the world moved, or the work did.
pub open spec fn has_to_be_evaluated(owner: Owner, id: Seq<char>, work: Seq<char>, moved: bool) -> bool {
    moved || optional_view(owner.work.at(id)) != Some(work)
}

/// What an owner remembers of followed work after an evaluation.
pub open spec fn remembers_evaluation(
    before: Owner,
    after: Owner,
    id: Seq<char>,
    work: String,
    e: Evaluation,
) -> bool {
    forall|k: Seq<char>|
        #[trigger] after.work.at(k) == (if k == id && (e is Unchanged || e is Stored) {
            Some(work)
        } else {
            before.work.at(k)
        })
}

/// Work whose evaluation reached a verdict rests until the world or the work moves; whatever failed or
/// was busy is tried again as if nothing had happened.
pub proof fn evaluated_work_rests_and_failures_are_tried_again(
    before: Owner,
    after: Owner,
    id: Seq<char>,
    work: String,
    e: Evaluation,
    other: Seq<char>,
    moved: bool,
)
    requires
        remembers_evaluation(before, after, id, work, e),
    ensures
        e is Unchanged || e is Stored ==> !has_to_be_evaluated(after, id, work@, false),
        !(e is Unchanged || e is Stored) ==> has_to_be_evaluated(after, id, other, moved)
            == has_to_be_evaluated(before, id, other, moved),
{
    assert(after.work.at(id) == after.work.at(id));
}

} // verus!
