//! Which plans are accepted, said of the tasks themselves.

use vstd::prelude::*;

use crate::planning::{
    accepted_tasks_are_distinct, all_plain, complete_order, components, crosses_link, depends_on, joined,
    listed_once_is_not_longer, names, no_overlap_error_means_ordered, order_respects_dependencies,
    overlap_error, path_error, paths_overlap, plan_error, prerequisites_error, prerequisites_fit, reaches,
    requires_directly, reserved, runnable, scope_path_error, stuck, taken_in_order, task_error,
    task_with, task_with_at, task_with_is_listed, tasks_error, within, within_bounds, writes_ordered,
    writes_overlap, PathKind, Plan, TaskSpec,
};

use crate::text::{byte_len, is_blank, is_space, is_word, split};
use crate::text_map::TextMap;

verus! {

/// Whether a file lies at or below a scope: the names in the path of the scope begin those in the path of
/// the file.
pub open spec fn lies_in(scope: Seq<char>, file: Seq<char>) -> bool {
    components(scope).is_prefix_of(components(file))
}

/// Whether the task at `a` names the task at `b` as a prerequisite.
pub open spec fn names_task(tasks: Seq<TaskSpec>, a: int, b: int) -> bool {
    exists|p: int|
        0 <= p < tasks[a].prerequisites@.len() && (#[trigger] tasks[a].prerequisites@[p])@ == tasks[b].id@
}

/// Whether a list of tasks leads from `a` to `b`, each one naming the next as a prerequisite.
pub open spec fn is_way(tasks: Seq<TaskSpec>, way: Seq<int>, a: int, b: int) -> bool {
    &&& way.len() >= 2
    &&& way[0] == a
    &&& way.last() == b
    &&& forall|k: int| 0 <= k < way.len() ==> 0 <= #[trigger] way[k] < tasks.len()
    &&& forall|k: int| 0 <= k < way.len() - 1 ==> names_task(tasks, #[trigger] way[k], way[k + 1])
}

/// Whether the task at `a` waits for the task at `b`, directly or over others.
pub open spec fn waits_for(tasks: Seq<TaskSpec>, a: int, b: int) -> bool {
    exists|way: Seq<int>| is_way(tasks, way, a, b)
}

/// Whether no two tasks share an identifier.
pub open spec fn told_apart(tasks: Seq<TaskSpec>) -> bool {
    forall|i: int, j: int|
        0 <= i < tasks.len() && 0 <= j < tasks.len() && i != j ==> (#[trigger] tasks[i]).id@ != (
        #[trigger] tasks[j]).id@
}

/// Whether an identifier is that of another task than the one at `i`.
pub open spec fn names_another(tasks: Seq<TaskSpec>, i: int, id: Seq<char>) -> bool {
    exists|j: int| 0 <= j < tasks.len() && j != i && (#[trigger] tasks[j]).id@ == id
}

/// Whether every prerequisite is another task of the plan.
pub open spec fn prerequisites_are_tasks(tasks: Seq<TaskSpec>) -> bool {
    forall|i: int, p: int|
        0 <= i < tasks.len() && 0 <= p < tasks[i].prerequisites@.len() ==> names_another(
            tasks,
            i,
            (#[trigger] tasks[i].prerequisites@[p])@,
        )
}

proof fn the_task_with(tasks: Seq<TaskSpec>, i: int)
    requires
        told_apart(tasks),
        0 <= i < tasks.len(),
    ensures
        task_with(tasks, tasks[i].id@) == Some(tasks[i]),
{
    assert forall|j: int| 0 <= j < i implies (#[trigger] tasks[j]).id@ != tasks[i].id@ by {}
    task_with_at(tasks, tasks[i].id@, i);
}

proof fn reaching_is_a_way(tasks: Seq<TaskSpec>, a: int, b: int, steps: nat)
    requires
        told_apart(tasks),
        prerequisites_are_tasks(tasks),
        0 <= a < tasks.len(),
        0 <= b < tasks.len(),
        reaches(tasks, tasks[a].id@, tasks[b].id@, steps),
    ensures
        waits_for(tasks, a, b),
    decreases steps,
{
    the_task_with(tasks, a);
    if requires_directly(tasks, tasks[a].id@, tasks[b].id@) {
        let p = choose|p: int|
            0 <= p < tasks[a].prerequisites@.len() && (#[trigger] tasks[a].prerequisites@[p])@
                == tasks[b].id@;
        assert(names_task(tasks, a, b));
        assert(is_way(tasks, seq![a, b], a, b));
    } else {
        let m = choose|m: Seq<char>| #[trigger]
            requires_directly(tasks, tasks[a].id@, m) && reaches(
                tasks,
                m,
                tasks[b].id@,
                (steps - 1) as nat,
            );
        let p = choose|p: int|
            0 <= p < tasks[a].prerequisites@.len() && (#[trigger] tasks[a].prerequisites@[p])@ == m;
        assert(tasks[a].prerequisites@[p]@ == m);
        let j = choose|j: int|
            0 <= j < tasks.len() && j != a && (#[trigger] tasks[j]).id@ == tasks[a].prerequisites@[p]@;
        reaching_is_a_way(tasks, j, b, (steps - 1) as nat);
        let way = choose|way: Seq<int>| is_way(tasks, way, j, b);
        let longer = seq![a] + way;
        assert(names_task(tasks, a, j));
        assert forall|k: int| 0 <= k < longer.len() implies 0 <= #[trigger] longer[k] < tasks.len() by {
            if k > 0 {
                assert(longer[k] == way[k - 1]);
            }
        }
        assert forall|k: int| 0 <= k < longer.len() - 1 implies names_task(
            tasks,
            #[trigger] longer[k],
            longer[k + 1],
        ) by {
            assert(longer[k + 1] == way[k]);
            if k > 0 {
                assert(longer[k] == way[k - 1]);
                assert(names_task(tasks, way[k - 1], way[k - 1 + 1]));
            }
        }
        assert(longer.last() == way.last());
        assert(is_way(tasks, longer, a, b));
    }
}

proof fn a_way_reaches(tasks: Seq<TaskSpec>, way: Seq<int>, a: int, b: int)
    requires
        told_apart(tasks),
        is_way(tasks, way, a, b),
    ensures
        reaches(tasks, tasks[a].id@, tasks[b].id@, (way.len() - 1) as nat),
    decreases way.len(),
{
    let next = way[1];
    assert(names_task(tasks, way[0int], way[0int + 1]));
    the_task_with(tasks, a);
    let p = choose|p: int|
        0 <= p < tasks[a].prerequisites@.len() && (#[trigger] tasks[a].prerequisites@[p])@
            == tasks[next].id@;
    assert(requires_directly(tasks, tasks[a].id@, tasks[next].id@));
    if way.len() > 2 {
        let rest = way.skip(1);
        assert forall|k: int| 0 <= k < rest.len() implies 0 <= #[trigger] rest[k] < tasks.len() by {
            assert(rest[k] == way[k + 1]);
        }
        assert forall|k: int| 0 <= k < rest.len() - 1 implies names_task(
            tasks,
            #[trigger] rest[k],
            rest[k + 1],
        ) by {
            assert(rest[k] == way[k + 1]);
            assert(names_task(tasks, way[k + 1], way[k + 1 + 1]));
        }
        assert(rest.last() == way.last());
        a_way_reaches(tasks, rest, next, b);
    } else {
        assert(next == way.last());
    }
}

/// A task depends on another exactly where a list of tasks leads from it to the other, each naming the next
/// as a prerequisite.
pub proof fn dependencies_are_ways(tasks: Seq<TaskSpec>, a: int, b: int)
    requires
        told_apart(tasks),
        prerequisites_are_tasks(tasks),
        0 <= a < tasks.len(),
        0 <= b < tasks.len(),
    ensures
        depends_on(tasks, tasks[a].id@, tasks[b].id@) <==> waits_for(tasks, a, b),
{
    if depends_on(tasks, tasks[a].id@, tasks[b].id@) {
        let steps = choose|steps: nat| reaches(tasks, tasks[a].id@, tasks[b].id@, steps);
        reaching_is_a_way(tasks, a, b, steps);
    }
    if waits_for(tasks, a, b) {
        let way = choose|way: Seq<int>| is_way(tasks, way, a, b);
        a_way_reaches(tasks, way, a, b);
    }
}

/// Whether a path may be named by a plan: it is relative and plain, of moderate length, stays out of the
/// machinery of the repository and crosses no link.
pub open spec fn may_be_named(tree: TextMap<PathKind>, value: Seq<char>) -> bool {
    &&& value.len() > 0 && byte_len(value) <= 512
    &&& forall|i: int| 0 <= i < value.len() ==> #[trigger] value[i] != '\\'
    &&& forall|i: int|
        0 <= i < components(value).len() ==> {
            let name = #[trigger] components(value)[i];
            name != "/"@ && name != "."@ && name != ".."@ && name != ".git"@ && name != ".dispatch"@
        }
    &&& forall|k: int|
        1 <= k <= components(value).len() ==> #[trigger] tree.at(joined(components(value).take(k)))
            != Some(PathKind::Symlink)
}

/// Whether a list is there, is no longer than allowed, and no item of it is blank or overlong.
pub open spec fn is_moderate(values: Seq<String>, most: nat) -> bool {
    &&& 1 <= values.len() <= most
    &&& forall|i: int|
        0 <= i < values.len() ==> byte_len((#[trigger] values[i])@) <= 2048 && exists|k: int|
            0 <= k < values[i]@.len() && !is_space(#[trigger] values[i]@[k])
}

/// Whether a task can be carried out by itself.
pub open spec fn is_sound(t: TaskSpec, tree: TextMap<PathKind>, approved: TextMap<String>) -> bool {
    &&& t.id@.len() > 0 && byte_len(t.id@) <= 48
    &&& forall|i: int| 0 <= i < t.id@.len() ==> is_word(#[trigger] t.id@[i])
    &&& byte_len(t.objective@) <= 4096
    &&& exists|k: int| 0 <= k < t.objective@.len() && !is_space(#[trigger] t.objective@[k])
    &&& is_moderate(t.read@, 32) && is_moderate(t.write@, 32)
    &&& is_moderate(t.acceptance@, 8) && is_moderate(t.checks@, 16)
    &&& is_moderate(t.inputs@, 8) && is_moderate(t.outputs@, 8)
    &&& forall|i: int| 0 <= i < t.read@.len() ==> may_be_named(tree, (#[trigger] t.read@[i])@)
    &&& forall|i: int| 0 <= i < t.write@.len() ==> may_be_named(tree, (#[trigger] t.write@[i])@)
    &&& forall|i: int| 0 <= i < t.checks@.len() ==> approved.at((#[trigger] t.checks@[i])@) is Some
    &&& forall|i: int, j: int|
        0 <= i < j < t.checks@.len() ==> (#[trigger] t.checks@[i])@ != (#[trigger] t.checks@[j])@
    &&& t.prerequisites@.len() <= 3
    &&& forall|i: int, j: int|
        0 <= i < j < t.prerequisites@.len() ==> (#[trigger] t.prerequisites@[i])@ != (
        #[trigger] t.prerequisites@[j])@
}

/// Whether an order holds every task once, each behind all of its prerequisites.
pub open spec fn orders(tasks: Seq<TaskSpec>, order: Seq<Seq<char>>) -> bool {
    &&& order.no_duplicates()
    &&& forall|i: int|
        0 <= i < tasks.len() ==> exists|k: int|
            0 <= k < order.len() && #[trigger] order[k] == (#[trigger] tasks[i]).id@ && forall|p: int|
                0 <= p < tasks[i].prerequisites@.len() ==> order.take(k).contains(
                    (#[trigger] tasks[i].prerequisites@[p])@,
                )
}

/// Whether some path lies in a write scope of one task and in one of another.
pub open spec fn share_a_file(a: TaskSpec, b: TaskSpec) -> bool {
    exists|i: int, j: int, file: Seq<char>|
        0 <= i < a.write@.len() && 0 <= j < b.write@.len() && lies_in(
            (#[trigger] a.write@[i])@,
            file,
        ) && #[trigger] lies_in((#[trigger] b.write@[j])@, file)
}

/// Whether a plan may be carried out: one to four sound tasks of the first version, no more than are left,
/// with identifiers of their own, prerequisites among one another, in some order, and such that of two tasks
/// that may write one file one waits for the other.
pub open spec fn is_acceptable(
    plan: Plan,
    tree: TextMap<PathKind>,
    approved: TextMap<String>,
    remaining: u32,
) -> bool {
    let tasks = plan.tasks@;
    &&& plan.version == 1
    &&& 1 <= tasks.len() <= 4 && tasks.len() <= remaining
    &&& forall|i: int| 0 <= i < tasks.len() ==> is_sound(#[trigger] tasks[i], tree, approved)
    &&& told_apart(tasks)
    &&& prerequisites_are_tasks(tasks)
    &&& exists|order: Seq<Seq<char>>| orders(tasks, order)
    &&& forall|a: int, b: int|
        0 <= a < tasks.len() && 0 <= b < tasks.len() && a != b && share_a_file(
            #[trigger] tasks[a],
            #[trigger] tasks[b],
        ) ==> waits_for(tasks, a, b) || waits_for(tasks, b, a)
}

proof fn overlapping_is_sharing(a: TaskSpec, b: TaskSpec)
    ensures
        writes_overlap(a, b) <==> share_a_file(a, b),
        share_a_file(a, b) <==> share_a_file(b, a),
{
    if writes_overlap(a, b) {
        let (i, j) = choose|i: int, j: int|
            0 <= i < a.write@.len() && 0 <= j < b.write@.len() && paths_overlap(
                (#[trigger] a.write@[i])@,
                (#[trigger] b.write@[j])@,
            );
        let p = a.write@[i]@;
        let q = b.write@[j]@;
        if within(p, q) {
            assert(components(p) =~= components(q).subrange(0, components(p).len() as int));
            assert(components(q) =~= components(q).subrange(0, components(q).len() as int));
            assert(lies_in(p, q) && lies_in(q, q));
        } else {
            assert(components(q) =~= components(p).subrange(0, components(q).len() as int));
            assert(components(p) =~= components(p).subrange(0, components(p).len() as int));
            assert(lies_in(p, p) && lies_in(q, p));
        }
    }
    if share_a_file(a, b) {
        sharing_is_overlapping(a, b);
        let (i, j, file) = choose|i: int, j: int, file: Seq<char>|
            0 <= i < a.write@.len() && 0 <= j < b.write@.len() && lies_in(
                (#[trigger] a.write@[i])@,
                file,
            ) && #[trigger] lies_in((#[trigger] b.write@[j])@, file);
        assert(lies_in(b.write@[j]@, file) && lies_in(a.write@[i]@, file));
    }
    if share_a_file(b, a) {
        let (i, j, file) = choose|i: int, j: int, file: Seq<char>|
            0 <= i < b.write@.len() && 0 <= j < a.write@.len() && lies_in(
                (#[trigger] b.write@[i])@,
                file,
            ) && #[trigger] lies_in((#[trigger] a.write@[j])@, file);
        assert(lies_in(a.write@[j]@, file) && lies_in(b.write@[i]@, file));
    }
}

proof fn sharing_is_overlapping(a: TaskSpec, b: TaskSpec)
    requires
        share_a_file(a, b),
    ensures
        writes_overlap(a, b),
{
    let (i, j, file) = choose|i: int, j: int, file: Seq<char>|
        0 <= i < a.write@.len() && 0 <= j < b.write@.len() && lies_in(
            (#[trigger] a.write@[i])@,
            file,
        ) && #[trigger] lies_in((#[trigger] b.write@[j])@, file);
    let p = a.write@[i]@;
    let q = b.write@[j]@;
    let f = components(file);
    assert(components(p) =~= f.subrange(0, components(p).len() as int));
    assert(components(q) =~= f.subrange(0, components(q).len() as int));
    if components(p).len() <= components(q).len() {
        assert(components(q).take(components(p).len() as int) =~= components(p));
        assert(within(p, q));
    } else {
        assert(components(p).take(components(q).len() as int) =~= components(q));
        assert(within(q, p));
    }
    assert(paths_overlap(a.write@[i]@, b.write@[j]@));
}

proof fn paths_that_may_be_named(tree: TextMap<PathKind>, value: Seq<char>)
    ensures
        path_error(tree, value) is None <==> may_be_named(tree, value),
{
    let parts = components(value);
    if may_be_named(tree, value) {
        assert(all_plain(parts));
        assert(!value.contains('\\'));
        assert forall|i: int| 0 <= i < parts.len() implies !reserved(#[trigger] parts[i]) by {}
        assert(!crosses_link(tree, parts));
    }
    if path_error(tree, value) is None {
        assert forall|i: int| 0 <= i < value.len() implies #[trigger] value[i] != '\\' by {}
        assert forall|i: int| 0 <= i < parts.len() implies {
            let name = #[trigger] parts[i];
            name != "/"@ && name != "."@ && name != ".."@ && name != ".git"@ && name != ".dispatch"@
        } by {
            assert(!reserved(parts[i]));
        }
    }
}

proof fn scopes_that_may_be_named(tree: TextMap<PathKind>, paths: Seq<String>, from: int)
    requires
        0 <= from <= paths.len(),
    ensures
        scope_path_error(tree, paths, from) is None <==> forall|i: int|
            from <= i < paths.len() ==> may_be_named(tree, (#[trigger] paths[i])@),
    decreases paths.len() - from,
{
    if from < paths.len() {
        scopes_that_may_be_named(tree, paths, from + 1);
        paths_that_may_be_named(tree, paths[from]@);
        if scope_path_error(tree, paths, from) is None {
            assert forall|i: int| from <= i < paths.len() implies may_be_named(
                tree,
                (#[trigger] paths[i])@,
            ) by {
                if i > from {
                    assert(scope_path_error(tree, paths, from + 1) is None);
                }
            }
        }
    }
}

proof fn moderate_lists(values: Seq<String>, most: nat)
    ensures
        within_bounds(values, most as int) <==> is_moderate(values, most),
{
    if within_bounds(values, most as int) {
        assert forall|i: int| 0 <= i < values.len() implies byte_len((#[trigger] values[i])@) <= 2048
            && exists|k: int| 0 <= k < values[i]@.len() && !is_space(#[trigger] values[i]@[k]) by {
            assert(!is_blank(values[i]@));
        }
    }
    if is_moderate(values, most) {
        assert forall|i: int| 0 <= i < values.len() implies !is_blank((#[trigger] values[i])@)
            && byte_len(values[i]@) <= 2048 by {
            let k = choose|k: int| 0 <= k < values[i]@.len() && !is_space(#[trigger] values[i]@[k]);
            assert(!is_space(values[i]@[k]));
        }
    }
}

/// Whether the identifier of the task at `i` differs from those before it.
spec fn is_new_id(tasks: Seq<TaskSpec>, i: int) -> bool {
    forall|j: int| 0 <= j < i ==> (#[trigger] tasks[j]).id@ != tasks[i].id@
}

/// Whether the prerequisites of a task are few and distinct.
spec fn has_few_prerequisites(t: TaskSpec) -> bool {
    &&& t.prerequisites@.len() <= 3
    &&& forall|i: int, j: int|
        0 <= i < j < t.prerequisites@.len() ==> (#[trigger] t.prerequisites@[i])@ != (
        #[trigger] t.prerequisites@[j])@
}

#[verifier::rlimit(40)]
#[verifier::spinoff_prover]
proof fn sound_tasks(tree: TextMap<PathKind>, approved: TextMap<String>, tasks: Seq<TaskSpec>, i: int)
    requires
        0 <= i < tasks.len(),
    ensures
        (task_error(tree, approved, tasks, i) is None && has_few_prerequisites(tasks[i])) <==> (is_sound(
            tasks[i],
            tree,
            approved,
        ) && is_new_id(tasks, i)),
{
    let t = tasks[i];
    moderate_lists(t.read@, 32);
    moderate_lists(t.write@, 32);
    moderate_lists(t.acceptance@, 8);
    moderate_lists(t.checks@, 16);
    moderate_lists(t.inputs@, 8);
    moderate_lists(t.outputs@, 8);
    scopes_that_may_be_named(tree, t.read@, 0);
    scopes_that_may_be_named(tree, t.write@, 0);
    assert(is_blank(t.objective@) <==> !exists|k: int|
        0 <= k < t.objective@.len() && !is_space(#[trigger] t.objective@[k]));
    assert(is_new_id(tasks, i) <==> !exists|j: int| 0 <= j < i && (#[trigger] tasks[j]).id@ == t.id@);
    assert((exists|k: int| 0 <= k < t.checks@.len() && approved.at((#[trigger] t.checks@[k])@) is None)
        <==> !(forall|k: int|
        0 <= k < t.checks@.len() ==> approved.at((#[trigger] t.checks@[k])@) is Some));
}

proof fn fitting_prerequisites(tasks: Seq<TaskSpec>, i: int)
    requires
        0 <= i < tasks.len(),
        told_apart(tasks),
    ensures
        prerequisites_fit(tasks, i) <==> (has_few_prerequisites(tasks[i]) && forall|p: int|
            0 <= p < tasks[i].prerequisites@.len() ==> names_another(
                tasks,
                i,
                (#[trigger] tasks[i].prerequisites@[p])@,
            )),
{
    let list = tasks[i].prerequisites@;
    assert forall|p: int| 0 <= p < list.len() implies ((#[trigger] list[p])@ != tasks[i].id@
        && task_with(tasks, list[p]@) is Some) == names_another(tasks, i, list[p]@) by {
        task_with_is_listed(tasks, list[p]@);
        if list[p]@ != tasks[i].id@ && task_with(tasks, list[p]@) is Some {
            let t = task_with(tasks, list[p]@)->0;
            let j = choose|j: int|
                0 <= j < tasks.len() && #[trigger] tasks[j] == t && t.id@ == list[p]@;
            assert(tasks[j].id@ == list[p]@);
        }
        if names_another(tasks, i, list[p]@) {
            let j = choose|j: int|
                0 <= j < tasks.len() && j != i && (#[trigger] tasks[j]).id@ == list[p]@;
            assert(tasks[j].id@ != tasks[i].id@);
        }
    }
}

proof fn all_prerequisites_fit(tasks: Seq<TaskSpec>, from: int)
    requires
        0 <= from <= tasks.len(),
    ensures
        prerequisites_error(tasks, from) is None <==> forall|i: int|
            from <= i < tasks.len() ==> #[trigger] prerequisites_fit(tasks, i),
    decreases tasks.len() - from,
{
    if from < tasks.len() {
        all_prerequisites_fit(tasks, from + 1);
        if prerequisites_error(tasks, from) is None {
            assert forall|i: int| from <= i < tasks.len() implies #[trigger] prerequisites_fit(
                tasks,
                i,
            ) by {
                if i > from {
                    assert(prerequisites_error(tasks, from + 1) is None);
                }
            }
        }
    }
}

proof fn no_task_is_refused(
    tree: TextMap<PathKind>,
    approved: TextMap<String>,
    tasks: Seq<TaskSpec>,
    from: int,
)
    requires
        0 <= from <= tasks.len(),
    ensures
        tasks_error(tree, approved, tasks, from) is None <==> forall|i: int|
            from <= i < tasks.len() ==> (#[trigger] task_error(tree, approved, tasks, i)) is None,
    decreases tasks.len() - from,
{
    if from < tasks.len() {
        no_task_is_refused(tree, approved, tasks, from + 1);
        if tasks_error(tree, approved, tasks, from) is None {
            assert forall|i: int| from <= i < tasks.len() implies (#[trigger] task_error(
                tree,
                approved,
                tasks,
                i,
            )) is None by {
                if i > from {
                    assert(tasks_error(tree, approved, tasks, from + 1) is None);
                }
            }
        }
    }
}

proof fn an_order_is_not_stuck(tasks: Seq<TaskSpec>, order: Seq<Seq<char>>)
    requires
        told_apart(tasks),
        prerequisites_are_tasks(tasks),
        orders(tasks, order),
    ensures
        !stuck(tasks),
{
    if stuck(tasks) {
        let done = choose|done: Seq<Seq<char>>| #[trigger]
            taken_in_order(tasks, done) && done.len() < tasks.len() && forall|i: int|
                !(#[trigger] runnable(tasks, done, i));
        let ids = Seq::new(tasks.len(), |i: int| tasks[i].id@);
        assert(exists|i: int| 0 <= i < tasks.len() && !done.contains((#[trigger] tasks[i]).id@)) by {
            if forall|i: int| 0 <= i < tasks.len() ==> done.contains((#[trigger] tasks[i]).id@) {
                assert(ids.no_duplicates());
                assert forall|i: int| 0 <= i < ids.len() implies done.contains(#[trigger] ids[i]) by {
                    assert(ids[i] == tasks[i].id@);
                }
                listed_once_is_not_longer(ids, done);
            }
        }
        let i = choose|i: int| 0 <= i < tasks.len() && !done.contains((#[trigger] tasks[i]).id@);
        let k = choose|k: int|
            0 <= k < order.len() && #[trigger] order[k] == tasks[i].id@ && forall|p: int|
                0 <= p < tasks[i].prerequisites@.len() ==> order.take(k).contains(
                    (#[trigger] tasks[i].prerequisites@[p])@,
                );
        a_waiting_task_is_found(tasks, order, done, i, k);
    }
}

proof fn a_waiting_task_is_found(
    tasks: Seq<TaskSpec>,
    order: Seq<Seq<char>>,
    done: Seq<Seq<char>>,
    i: int,
    k: int,
)
    requires
        told_apart(tasks),
        orders(tasks, order),
        prerequisites_are_tasks(tasks),
        0 <= i < tasks.len(),
        !done.contains(tasks[i].id@),
        0 <= k < order.len(),
        order[k] == tasks[i].id@,
        forall|p: int|
            0 <= p < tasks[i].prerequisites@.len() ==> order.take(k).contains(
                (#[trigger] tasks[i].prerequisites@[p])@,
            ),
    ensures
        exists|j: int| #[trigger] runnable(tasks, done, j),
    decreases k,
{
    if forall|p: int|
        0 <= p < tasks[i].prerequisites@.len() ==> done.contains(
            (#[trigger] tasks[i].prerequisites@[p])@,
        ) {
        assert(runnable(tasks, done, i));
    } else {
        let p = choose|p: int|
            0 <= p < tasks[i].prerequisites@.len() && !done.contains(
                (#[trigger] tasks[i].prerequisites@[p])@,
            );
        let name = tasks[i].prerequisites@[p]@;
        assert(order.take(k).contains(name));
        let j = choose|j: int|
            0 <= j < tasks.len() && j != i && (#[trigger] tasks[j]).id@ == tasks[i].prerequisites@[p]@;
        let m = choose|m: int|
            0 <= m < order.len() && #[trigger] order[m] == tasks[j].id@ && forall|q: int|
                0 <= q < tasks[j].prerequisites@.len() ==> order.take(m).contains(
                    (#[trigger] tasks[j].prerequisites@[q])@,
                );
        let n = choose|n: int| 0 <= n < order.take(k).len() && order.take(k)[n] == name;
        assert(order[n] == name);
        assert(n == m);
        a_waiting_task_is_found(tasks, order, done, j, m);
    }
}

proof fn ordered_pairs(tasks: Seq<TaskSpec>, i: int, j: int)
    requires
        0 <= i < j,
        forall|a: int, b: int|
            0 <= a < b < tasks.len() ==> #[trigger] writes_ordered(tasks, a, b),
    ensures
        overlap_error(tasks, i, j) is None,
    decreases tasks.len() - i, tasks.len() - j,
{
    if i < tasks.len() {
        if j >= tasks.len() {
            ordered_pairs(tasks, i + 1, i + 2);
        } else {
            assert(writes_ordered(tasks, i, j));
            ordered_pairs(tasks, i, j + 1);
        }
    }
}

/// A plan is accepted exactly where it is acceptable: nothing else is refused, and nothing else is let
/// through.
#[verifier::rlimit(60)]
#[verifier::spinoff_prover]
pub proof fn exactly_acceptable_plans_are_accepted(
    plan: Plan,
    tree: TextMap<PathKind>,
    approved: TextMap<String>,
    remaining: u32,
)
    ensures
        plan_error(plan, tree, approved, remaining) is None <==> is_acceptable(
            plan,
            tree,
            approved,
            remaining,
        ),
{
    if plan_error(plan, tree, approved, remaining) is None {
        an_accepted_plan_is_acceptable(plan, tree, approved, remaining);
    }
    if is_acceptable(plan, tree, approved, remaining) {
        an_acceptable_plan_is_accepted(plan, tree, approved, remaining);
    }
}

proof fn an_accepted_plan_is_acceptable(
    plan: Plan,
    tree: TextMap<PathKind>,
    approved: TextMap<String>,
    remaining: u32,
)
    requires
        plan_error(plan, tree, approved, remaining) is None,
    ensures
        is_acceptable(plan, tree, approved, remaining),
{
    let tasks = plan.tasks@;
    no_task_is_refused(tree, approved, tasks, 0);
    all_prerequisites_fit(tasks, 0);
    assert forall|i: int| 0 <= i < tasks.len() implies is_sound(#[trigger] tasks[i], tree, approved)
        && is_new_id(tasks, i) by {
        assert(task_error(tree, approved, tasks, i) is None);
        assert(prerequisites_fit(tasks, i));
        sound_tasks(tree, approved, tasks, i);
    }
    assert forall|i: int, j: int|
        0 <= i < tasks.len() && 0 <= j < tasks.len() && i != j implies (#[trigger] tasks[i]).id@ != (
    #[trigger] tasks[j]).id@ by {
        assert(is_new_id(tasks, i) && is_new_id(tasks, j)) by {
            assert(tasks[i] == tasks[i] && tasks[j] == tasks[j]);
        }
    }
    assert forall|i: int, p: int|
        0 <= i < tasks.len() && 0 <= p < tasks[i].prerequisites@.len() implies names_another(
        tasks,
        i,
        (#[trigger] tasks[i].prerequisites@[p])@,
    ) by {
        assert(prerequisites_fit(tasks, i));
        fitting_prerequisites(tasks, i);
    }
    let order = complete_order(tasks, tasks.len());
    crate::planning::taken_once(tasks, order);
    assert forall|i: int| 0 <= i < tasks.len() implies exists|k: int|
        0 <= k < order.len() && #[trigger] order[k] == (#[trigger] tasks[i]).id@ && forall|p: int|
            0 <= p < tasks[i].prerequisites@.len() ==> order.take(k).contains(
                (#[trigger] tasks[i].prerequisites@[p])@,
            ) by {
        order_respects_dependencies(tasks, order, i);
    }
    assert(orders(tasks, order));
    assert forall|a: int, b: int|
        0 <= a < tasks.len() && 0 <= b < tasks.len() && a != b && share_a_file(
            #[trigger] tasks[a],
            #[trigger] tasks[b],
        ) implies waits_for(tasks, a, b) || waits_for(tasks, b, a) by {
        overlapping_is_sharing(tasks[a], tasks[b]);
        overlapping_is_sharing(tasks[b], tasks[a]);
        if a < b {
            no_overlap_error_means_ordered(tasks, 0, 1, a, b);
        } else {
            no_overlap_error_means_ordered(tasks, 0, 1, b, a);
        }
        dependencies_are_ways(tasks, a, b);
        dependencies_are_ways(tasks, b, a);
    }
}

proof fn an_acceptable_plan_is_accepted(
    plan: Plan,
    tree: TextMap<PathKind>,
    approved: TextMap<String>,
    remaining: u32,
)
    requires
        is_acceptable(plan, tree, approved, remaining),
    ensures
        plan_error(plan, tree, approved, remaining) is None,
{
    let tasks = plan.tasks@;
    assert forall|i: int| 0 <= i < tasks.len() implies (#[trigger] task_error(tree, approved, tasks, i)) is None by {
        assert(is_sound(tasks[i], tree, approved));
        assert(is_new_id(tasks, i));
        sound_tasks(tree, approved, tasks, i);
    }
    no_task_is_refused(tree, approved, tasks, 0);
    assert forall|i: int| 0 <= i < tasks.len() implies #[trigger] prerequisites_fit(tasks, i) by {
        assert(is_sound(tasks[i], tree, approved));
        fitting_prerequisites(tasks, i);
    }
    all_prerequisites_fit(tasks, 0);
    let order = choose|order: Seq<Seq<char>>| orders(tasks, order);
    an_order_is_not_stuck(tasks, order);
    assert forall|a: int, b: int| 0 <= a < b < tasks.len() implies #[trigger] writes_ordered(tasks, a, b) by {
        overlapping_is_sharing(tasks[a], tasks[b]);
        dependencies_are_ways(tasks, a, b);
        dependencies_are_ways(tasks, b, a);
    }
    ordered_pairs(tasks, 0, 1);
}

/// In an accepted plan no two tasks write one file side by side: where some path lies at or below a write
/// scope of one task and at or below one of another, whichever is listed first, one of the two waits for the
/// other over a list of prerequisites.
pub proof fn tasks_that_may_write_one_file_are_ordered(
    plan: Plan,
    tree: TextMap<PathKind>,
    approved: TextMap<String>,
    remaining: u32,
    a: int,
    b: int,
    i: int,
    j: int,
    file: Seq<char>,
)
    requires
        plan_error(plan, tree, approved, remaining) is None,
        0 <= a < plan.tasks@.len(),
        0 <= b < plan.tasks@.len(),
        a != b,
        0 <= i < plan.tasks@[a].write@.len(),
        0 <= j < plan.tasks@[b].write@.len(),
        components(plan.tasks@[a].write@[i]@).is_prefix_of(components(file)),
        components(plan.tasks@[b].write@[j]@).is_prefix_of(components(file)),
    ensures
        waits_for(plan.tasks@, a, b) || waits_for(plan.tasks@, b, a),
{
    exactly_acceptable_plans_are_accepted(plan, tree, approved, remaining);
    let x = plan.tasks@[a];
    let y = plan.tasks@[b];
    assert(lies_in(x.write@[i]@, file) && lies_in(y.write@[j]@, file));
    assert(share_a_file(x, y));
}

/// A scope and every file below it are taken for the same place whichever of the two is asked about: a plan
/// with two tasks that do not wait for one another is refused both where one writes a directory and the other
/// a file in it, and the other way round.
pub proof fn writing_below_another_scope_is_refused(
    plan: Plan,
    tree: TextMap<PathKind>,
    approved: TextMap<String>,
    remaining: u32,
    a: int,
    b: int,
    i: int,
    j: int,
)
    requires
        0 <= a < plan.tasks@.len(),
        0 <= b < plan.tasks@.len(),
        a != b,
        0 <= i < plan.tasks@[a].write@.len(),
        0 <= j < plan.tasks@[b].write@.len(),
        components(plan.tasks@[a].write@[i]@).is_prefix_of(
            components(plan.tasks@[b].write@[j]@),
        ) || components(plan.tasks@[b].write@[j]@).is_prefix_of(
            components(plan.tasks@[a].write@[i]@),
        ),
        !waits_for(plan.tasks@, a, b),
        !waits_for(plan.tasks@, b, a),
    ensures
        plan_error(plan, tree, approved, remaining) is Some,
{
    let p = plan.tasks@[a].write@[i]@;
    let q = plan.tasks@[b].write@[j]@;
    if plan_error(plan, tree, approved, remaining) is None {
        assert(components(p) =~= components(p).subrange(0, components(p).len() as int));
        assert(components(q) =~= components(q).subrange(0, components(q).len() as int));
        let file = if components(p).is_prefix_of(components(q)) {
            q
        } else {
            p
        };
        tasks_that_may_write_one_file_are_ordered(
            plan,
            tree,
            approved,
            remaining,
            a,
            b,
            i,
            j,
            file,
        );
    }
}

proof fn names_keep_parts(parts: Seq<Seq<char>>, i: int)
    requires
        0 <= i < parts.len(),
        parts[i].len() > 0,
        parts[i] != "."@,
    ensures
        names(parts).contains(parts[i]),
    decreases parts.len(),
{
    let earlier = names(parts.drop_last());
    if i < parts.len() - 1 {
        assert(parts.drop_last()[i] == parts[i]);
        names_keep_parts(parts.drop_last(), i);
        let k = choose|k: int| 0 <= k < earlier.len() && earlier[k] == parts[i];
        assert(names(parts)[k] == parts[i]);
    } else {
        assert(names(parts).last() == parts[i]);
    }
}

/// A path that an accepted plan names cannot lead out of the repository or into its machinery: it does not
/// begin with a slash, holds no backslash, and nothing between two slashes is `..`, `.git` or `.dispatch`.
pub proof fn named_paths_stay_inside(tree: TextMap<PathKind>, value: Seq<char>, i: int)
    requires
        path_error(tree, value) is None,
        0 <= i < split(value, '/').len(),
    ensures
        value.len() > 0,
        value[0] != '/',
        !value.contains('\\'),
        split(value, '/')[i] != ".."@,
        split(value, '/')[i] != ".git"@,
        split(value, '/')[i] != ".dispatch"@,
{
    paths_that_may_be_named(tree, value);
    let parts = split(value, '/');
    let all = components(value);
    if value[0] == '/' {
        assert(all[0] == "/"@);
    }
    reveal_strlit("..");
    reveal_strlit(".git");
    reveal_strlit(".dispatch");
    reveal_strlit(".");
    assert("."@.len() == 1 && ".."@.len() == 2 && ".git"@.len() == 4 && ".dispatch"@.len() == 9);
    if parts[i] == ".."@ || parts[i] == ".git"@ || parts[i] == ".dispatch"@ {
        names_keep_parts(parts, i);
        let k = choose|k: int| 0 <= k < names(parts).len() && names(parts)[k] == parts[i];
        assert(all[k] == parts[i]);
    }
}

} // verus!
