//! Which launches of a planned goal pass its fence.

use vstd::prelude::*;

use crate::planning::{
    attempt_with, begun, consumed, fenced, is_working, not_begun, planning_of,
    slot_taken, Fenced, Invocation, Planning, Task, TaskState,
};

use crate::text::optional_view;
use crate::record::{AttemptRecord, LifecycleState, RunRecord, WorkResult};

verus! {

/// How many reservations may have become launches: all but those of which it is known that nothing was
/// started.
pub open spec fn launched(invocations: Seq<Invocation>) -> nat {
    invocations.filter(
        |i: Invocation|
            i.knowledge@ != "launch_intent_committed"@ && i.knowledge@ != "launch_not_started"@,
    ).len()
}

/// How many tasks still wait for their first attempt.
pub open spec fn untried(tasks: Seq<Task>, attempts: Seq<AttemptRecord>) -> nat {
    tasks.filter(
        |t: Task|
            forall|i: int|
                0 <= i < attempts.len() ==> !((#[trigger] attempts[i]).role@ == "task"@
                    && attempts[i].detail.task_id is Some && attempts[i].detail.task_id->0@ == t.id@),
    ).len()
}

/// Whether one more launch keeps within every limit: the policy of the goal, six altogether, and one before
/// there is a plan or two more than the plan has tasks.
pub open spec fn is_within_limits(run: RunRecord, p: Planning, n: nat) -> bool {
    &&& n < run.phase3->0.max_invocations
    &&& n < 6
    &&& n < (if p.plan is Some {
        p.plan->0.tasks@.len() + 2
    } else {
        1
    })
}

/// Whether the attempt at `k` is the first with an identifier.
pub open spec fn is_first(attempts: Seq<AttemptRecord>, id: Seq<char>, k: int) -> bool {
    &&& 0 <= k < attempts.len()
    &&& attempts[k].id@ == id
    &&& forall|j: int| 0 <= j < k ==> (#[trigger] attempts[j]).id@ != id
}

/// Whether a task is under way.
pub open spec fn is_under_way(tasks: Seq<Task>, id: Seq<char>) -> bool {
    exists|i: int|
        0 <= i < tasks.len() && (#[trigger] tasks[i]).id@ == id && tasks[i].state == TaskState::Working
}

/// Whether an attempt has a claim to a slot: a planner as long as there is no plan, a task that is under way,
/// and a continuation, or a repair unless the goal forbids retries, as long as a launch is left over for
/// every task that waits for its first.
pub open spec fn has_claim(run: RunRecord, p: Planning, a: AttemptRecord, n: nat, slot: Seq<char>) -> bool {
    if a.role@ == "planner"@ {
        p.plan is None && slot == "planner"@
    } else if a.role@ == "task"@ {
        &&& a.detail.task_id is Some
        &&& is_under_way(p.tasks@, a.detail.task_id->0@)
        &&& slot == "task:"@ + a.detail.task_id->0@
    } else {
        &&& a.role@ == "continuation"@ || (a.role@ == "repair"@ && !run.phase3->0.no_retry)
        &&& is_within_limits(run, p, n + untried(p.tasks@, run.attempts@))
        &&& slot == "extra"@
    }
}

proof fn launches_are_consumed(invocations: Seq<Invocation>)
    ensures
        consumed(invocations) == launched(invocations),
    decreases invocations.len(),
{
    reveal(Seq::filter);
    if invocations.len() > 0 {
        launches_are_consumed(invocations.drop_last());
    }
}

proof fn untried_are_not_begun(tasks: Seq<Task>, attempts: Seq<AttemptRecord>)
    ensures
        not_begun(tasks, attempts) == untried(tasks, attempts),
    decreases tasks.len(),
{
    reveal(Seq::filter);
    if tasks.len() > 0 {
        untried_are_not_begun(tasks.drop_last(), attempts);
        let id = tasks.last().id@;
        let waits = forall|i: int|
            0 <= i < attempts.len() ==> !((#[trigger] attempts[i]).role@ == "task"@
                && attempts[i].detail.task_id is Some && attempts[i].detail.task_id->0@ == id);
        if begun(attempts, id) {
            let i = choose|i: int|
                0 <= i < attempts.len() && (#[trigger] attempts[i]).role@ == "task"@ && optional_view(
                    attempts[i].detail.task_id,
                ) == Some(id);
            assert(attempts[i].detail.task_id is Some && attempts[i].detail.task_id->0@ == id);
        }
        if !waits {
            let i = choose|i: int|
                0 <= i < attempts.len() && (#[trigger] attempts[i]).role@ == "task"@
                    && attempts[i].detail.task_id is Some && attempts[i].detail.task_id->0@ == id;
            assert(optional_view(attempts[i].detail.task_id) == Some(id));
        }
        assert(begun(attempts, id) == !waits);
    }
}

proof fn the_first_attempt(attempts: Seq<AttemptRecord>, id: Seq<char>)
    ensures
        match attempt_with(attempts, id) {
            Some(a) => exists|k: int| is_first(attempts, id, k) && #[trigger] attempts[k] == a,
            None => forall|k: int| 0 <= k < attempts.len() ==> (#[trigger] attempts[k]).id@ != id,
        },
    decreases attempts.len(),
{
    if attempts.len() > 0 {
        if attempts[0].id@ == id {
            assert(is_first(attempts, id, 0));
        } else {
            let rest = attempts.drop_first();
            the_first_attempt(rest, id);
            match attempt_with(attempts, id) {
                Some(a) => {
                    let k = choose|k: int| is_first(rest, id, k) && #[trigger] rest[k] == a;
                    assert(attempts[k + 1] == a);
                    assert forall|j: int| 0 <= j < k + 1 implies (#[trigger] attempts[j]).id@ != id by {
                        if j > 0 {
                            assert(attempts[j] == rest[j - 1]);
                        }
                    }
                    assert(is_first(attempts, id, k + 1));
                },
                None => {
                    assert forall|k: int| 0 <= k < attempts.len() implies (#[trigger] attempts[k]).id@
                        != id by {
                        if k > 0 {
                            assert(attempts[k] == rest[k - 1]);
                        }
                    }
                },
            }
        }
    }
}

/// A launch of a planned goal passes the fence exactly where its policy is the stored one, the goal is open
/// and before its deadline, the attempt is recorded, one more launch keeps within every limit, the attempt has
/// a claim to its slot, and nobody has reserved that slot.
pub proof fn exactly_claimed_launches_pass(
    run: RunRecord,
    attempt: Seq<char>,
    policy_unchanged: bool,
    now: i64,
    invocations: Seq<Invocation>,
    k: int,
    slot: Seq<char>,
)
    requires
        planning_of(run) is Some,
        is_first(run.attempts@, attempt, k),
    ensures
        fenced(run, attempt, policy_unchanged, now, invocations) == Fenced::Slot(slot) <==> {
            let p = planning_of(run)->0;
            let n = launched(invocations);
            &&& policy_unchanged
            &&& now < run.phase3->0.deadline_at
            &&& run.outcome.lifecycle != LifecycleState::Finished
            &&& run.outcome.work_result == WorkResult::Pending
            &&& is_within_limits(run, p, n)
            &&& has_claim(run, p, run.attempts@[k], n, slot)
            &&& forall|i: int|
                0 <= i < invocations.len() ==> (#[trigger] invocations[i]).slot@ != slot
        },
{
    let p = planning_of(run)->0;
    launches_are_consumed(invocations);
    untried_are_not_begun(p.tasks@, run.attempts@);
    the_first_attempt(run.attempts@, attempt);
    let a = run.attempts@[k];
    assert(attempt_with(run.attempts@, attempt) is Some) by {
        assert(run.attempts@[k].id@ == attempt);
    }
    let j = choose|j: int|
        is_first(run.attempts@, attempt, j) && #[trigger] run.attempts@[j] == attempt_with(
            run.attempts@,
            attempt,
        )->0;
    assert(j == k) by {
        if j < k {
            assert(run.attempts@[j].id@ != attempt);
        } else if k < j {
            assert(run.attempts@[k].id@ != attempt);
        }
    }
    assert(!slot_taken(invocations, slot) <==> forall|i: int|
        0 <= i < invocations.len() ==> (#[trigger] invocations[i]).slot@ != slot);
    if let Some(task) = a.detail.task_id {
        assert(is_working(p.tasks@, task@) == is_under_way(p.tasks@, task@));
    }
}

} // verus!
