//! Bounded local planning contracts. Proposals never confer execution authority.

pub mod accepting;
pub mod launching;

use vstd::prelude::*;

use crate::text::{
    all_distinct, all_word, before, before_is_irreflexive, before_is_total, before_is_transitive,
    blank, byte_len, bytes_in, distinct, ends_in, has_char, has_suffix, holds, holds_text, is_blank,
    only_word, optional_view, same, same_optional, sorts_before, split, split_text, texts,
};
use crate::text_map::TextMap;
use crate::digest::{digest, file_hash, hash_text, text_digest};
use crate::record::{AttemptRecord, CheckResult, CheckStatus, LifecycleState, RunRecord, WorkResult};
use crate::router::{AllocationDecision, ResourceTier};

verus! {

/// What the owner of a project lets plans do.
#[derive(Debug, Clone, PartialEq, Eq)]
pub struct PlanningConfig {
    /// Owner-selected existing verification files, restored from the baseline for checks.
    pub verification_paths: Vec<String>,
    pub routine: Vec<RoutineScope>,
}

impl PlanningConfig {
    /// Whether the owner has configured nothing.
    pub fn is_empty(&self) -> (r: bool)
        ensures
            r == (self.verification_paths@.len() == 0 && self.routine@.len() == 0),
    {
        self.verification_paths.len() == 0 && self.routine.len() == 0
    }
}

/// Paths whose changes are routine, and the checks that show it.
#[derive(Debug, Clone, PartialEq, Eq)]
pub struct RoutineScope {
    pub paths: Vec<String>,
    pub checks: Vec<String>,
}

/// A proposed division of a goal into tasks.
#[derive(Debug, Clone, PartialEq, Eq)]
pub struct Plan {
    pub version: u32,
    pub tasks: Vec<TaskSpec>,
}

/// One task of a plan.
#[derive(Debug, Clone, PartialEq, Eq)]
pub struct TaskSpec {
    pub id: String,
    pub objective: String,
    pub read: Vec<String>,
    pub write: Vec<String>,
    pub acceptance: Vec<String>,
    pub checks: Vec<String>,
    pub prerequisites: Vec<String>,
    pub inputs: Vec<String>,
    pub outputs: Vec<String>,
}

/// The plan of a goal and what has become of it.
#[derive(Debug, Clone, PartialEq, Eq)]
pub struct Planning {
    pub version: u32,
    pub revision: String,
    pub approved_checks: TextMap<String>,
    pub owner_policy: PlanningConfig,
    pub plan: Option<Plan>,
    pub tasks: Vec<Task>,
    pub snapshots: Vec<Snapshot>,
    pub artifacts: Vec<Artifact>,
    pub final_candidate: Option<String>,
    pub final_patch_sha256: Option<String>,
    pub root_checks: Vec<CheckResult>,
    pub error: Option<String>,
}

/// One task as it is carried out.
#[derive(Debug, Clone, PartialEq, Eq)]
pub struct Task {
    pub id: String,
    pub state: TaskState,
    pub decision: AllocationDecision,
    pub feature_provenance: String,
    pub input: Option<String>,
    pub artifact: Option<String>,
    pub pending_prerequisite: Option<String>,
    pub extra_reason: Option<String>,
}

#[derive(Debug, Clone, Copy, PartialEq, Eq, Structural)]
pub enum TaskState {
    Pending,
    Working,
    Waiting,
    Integrated,
    Failed,
}

/// An immutable tree that tasks start from or end in.
#[derive(Debug, Clone, PartialEq, Eq)]
pub struct Snapshot {
    pub id: String,
    pub path: String,
    pub fingerprint: String,
    pub parent: Option<String>,
    pub contribution: Option<String>,
}

/// What one task produced.
#[derive(Debug, Clone, PartialEq, Eq)]
pub struct Artifact {
    pub id: String,
    pub task_id: Option<String>,
    pub attempt_id: String,
    pub input: String,
    pub output: String,
    pub patch: String,
    pub patch_sha256: String,
    pub manifest: String,
    pub checks: Vec<CheckResult>,
    pub verification_changes: Vec<String>,
}

/// A dependency that an agent reports while it works on a task.
#[derive(Debug, Clone, PartialEq, Eq)]
pub struct DependencyReport {
    pub version: u32,
    pub plan_revision: String,
    pub task_id: String,
    pub attempt_id: String,
    pub generation: u32,
    pub prerequisite: Option<String>,
    pub assistance: Option<String>,
}

/// What stands at a path, without following it.
#[derive(Debug, Clone, Copy, PartialEq, Eq, Structural)]
pub enum PathKind {
    File,
    Directory,
    Symlink,
    Other,
}

/// The part of a configuration that planning reads.
#[derive(Debug, Clone, PartialEq, Eq)]
pub struct PlanningRules {
    /// The commands that verify a result.
    pub verify: Vec<String>,
    pub planning: PlanningConfig,
}

/// The reference under which plans name a check.
pub open spec fn check_id(command: Seq<char>) -> Seq<char> {
    "check-"@ + text_digest(command).take(16)
}

/// The command that a reference stands for: the last one with that reference.
pub open spec fn catalogued(commands: Seq<String>, id: Seq<char>) -> Option<String>
    decreases commands.len(),
{
    if commands.len() == 0 {
        None
    } else if check_id(commands.last()@) == id {
        Some(commands.last())
    } else {
        catalogued(commands.drop_last(), id)
    }
}

fn reference(command: &str) -> (r: String)
    ensures
        r@ == check_id(command@),
{
    let hash = digest(command);
    let mut out = "check-".to_owned();
    out.push_str(hash.as_str().substring_char(0, 16));
    assert(hash@.subrange(0, 16) =~= hash@.take(16));
    out
}

/// The approved commands under their references.
pub fn catalog(commands: &Vec<String>) -> (r: TextMap<String>)
    ensures
        r.in_order(),
        forall|id: Seq<char>| #[trigger] r.at(id) == catalogued(commands@, id),
{
    let mut out: TextMap<String> = TextMap::new();
    let mut i: usize = 0;
    while i < commands.len()
        invariant
            i <= commands.len(),
            out.in_order(),
            forall|id: Seq<char>| #[trigger] out.at(id) == catalogued(commands@.take(i as int), id),
        decreases commands.len() - i,
    {
        assert(commands@.take(i as int + 1).drop_last() =~= commands@.take(i as int));
        out.insert(reference(commands[i].as_str()), commands[i].clone());
        i += 1;
    }
    assert(commands@.take(commands@.len() as int) =~= commands@);
    out
}

/// The names in a path: empty parts are dropped, and `.` anywhere but at the beginning.
pub open spec fn names(parts: Seq<Seq<char>>) -> Seq<Seq<char>>
    decreases parts.len(),
{
    if parts.len() == 0 {
        Seq::empty()
    } else {
        let earlier = names(parts.drop_last());
        let last = parts.last();
        if last.len() == 0 || (last == "."@ && parts.len() > 1) {
            earlier
        } else {
            earlier.push(last)
        }
    }
}

/// The components of a path: `/` for the root, then its names.
pub open spec fn components(path: Seq<char>) -> Seq<Seq<char>> {
    if path.len() > 0 && path[0] == '/' {
        seq!["/"@] + names(split(path, '/'))
    } else {
        names(split(path, '/'))
    }
}

/// The components of a path.
pub fn components_of(path: &str) -> (r: Vec<String>)
    ensures
        texts(r@) == components(path@),
{
    let parts = split_text(path, '/');
    let mut out: Vec<String> = Vec::new();
    let chars = crate::text::chars_of(path);
    let ghost root: Seq<Seq<char>> = if path@.len() > 0 && path@[0] == '/' {
        seq!["/"@]
    } else {
        Seq::empty()
    };
    if chars.len() > 0 && chars[0] == '/' {
        out.push("/".to_owned());
    }
    assert(texts(out@) =~= root);
    let mut i: usize = 0;
    assert(root + names(texts(parts@).take(0)) =~= root);
    while i < parts.len()
        invariant
            i <= parts.len(),
            texts(out@) == root + names(texts(parts@).take(i as int)),
        decreases parts.len() - i,
    {
        let ghost earlier = out@;
        let ghost all = texts(parts@);
        assert(all.take(i as int + 1).drop_last() =~= all.take(i as int));
        assert(all.take(i as int + 1).last() == parts@[i as int]@);
        if parts[i].as_str().is_empty() || (i > 0 && same(parts[i].as_str(), ".")) {
        } else {
            out.push(parts[i].clone());
            assert(texts(out@) =~= texts(earlier).push(parts@[i as int]@));
            assert(texts(earlier).push(parts@[i as int]@) =~= root + names(all.take(i as int)).push(
                parts@[i as int]@,
            ));
        }
        i += 1;
    }
    assert(texts(parts@).take(parts@.len() as int) =~= texts(parts@));
    assert(root.len() == 0 ==> root + names(texts(parts@)) =~= names(texts(parts@)));
    out
}

/// The name that a path ends in, if it ends in a plain name.
pub open spec fn file_name(path: Seq<char>) -> Option<Seq<char>> {
    let parts = components(path);
    if parts.len() > 0 && parts.last() != "/"@ && parts.last() != "."@ && parts.last() != ".."@ {
        Some(parts.last())
    } else {
        None
    }
}

/// The name that a path ends in, if it ends in a plain name.
pub fn file_name_of(path: &str) -> (r: Option<String>)
    ensures
        optional_view(r) == file_name(path@),
{
    let parts = components_of(path);
    let ghost all = texts(parts@);
    if parts.len() == 0 {
        return None;
    }
    let last = &parts[parts.len() - 1];
    assert(all.last() == last@);
    if same(last.as_str(), "/") || same(last.as_str(), ".") || same(last.as_str(), "..") {
        None
    } else {
        Some(last.clone())
    }
}

/// Components joined by `/`.
pub open spec fn joined(parts: Seq<Seq<char>>) -> Seq<char>
    decreases parts.len(),
{
    if parts.len() == 0 {
        Seq::empty()
    } else if parts.len() == 1 {
        parts[0]
    } else {
        joined(parts.drop_last()) + "/"@ + parts.last()
    }
}

/// Whether every component is a plain name.
pub open spec fn all_plain(parts: Seq<Seq<char>>) -> bool {
    forall|i: int|
        0 <= i < parts.len() ==> (#[trigger] parts[i]) != "/"@ && parts[i] != "."@ && parts[i]
            != ".."@
}

/// Whether a component names a directory that plans may not touch.
pub open spec fn reserved(part: Seq<char>) -> bool {
    part == ".git"@ || part == ".dispatch"@
}

/// Whether something on the way to the path is a symbolic link.
pub open spec fn crosses_link(tree: TextMap<PathKind>, parts: Seq<Seq<char>>) -> bool {
    exists|k: int|
        1 <= k <= parts.len() && #[trigger] tree.at(joined(parts.take(k))) == Some(
            PathKind::Symlink,
        )
}

/// Why a repository-relative path is refused, if it is.
pub open spec fn path_error(tree: TextMap<PathKind>, value: Seq<char>) -> Option<Seq<char>> {
    let parts = components(value);
    if value.len() == 0 || byte_len(value) > 512 {
        Some("empty or oversized path"@)
    } else if !all_plain(parts) || value.contains('\\') {
        Some("unsafe repository-relative path: "@ + value)
    } else if exists|i: int| 0 <= i < parts.len() && reserved(#[trigger] parts[i]) {
        Some("reserved path: "@ + value)
    } else if crosses_link(tree, parts) {
        Some("scope contains a symlink: "@ + value)
    } else {
        None
    }
}

fn with_value(message: &str, value: &str) -> (r: String)
    ensures
        r@ == message@ + value@,
{
    let mut out = message.to_owned();
    out.push_str(value);
    out
}

/// The normal form of a repository-relative path, or why it is refused. `tree` says what stands
/// at the paths on the way.
pub fn path(tree: &TextMap<PathKind>, value: &str) -> (r: Result<String, String>)
    ensures
        match path_error(*tree, value@) {
            Some(message) => r matches Err(e) && e@ == message,
            None => r matches Ok(p) && p@ == joined(components(value@)),
        },
{
    if value.is_empty() || bytes_in(value) > 512 {
        return Err("empty or oversized path".to_owned());
    }
    let parts = components_of(value);
    let ghost all = texts(parts@);
    let mut plain = true;
    let mut found_reserved = false;
    let mut i: usize = 0;
    while i < parts.len()
        invariant
            i <= parts.len(),
            all == texts(parts@),
            plain == all_plain(all.take(i as int)),
            found_reserved == (exists|k: int| 0 <= k < i && reserved(#[trigger] all[k])),
        decreases parts.len() - i,
    {
        let name = parts[i].as_str();
        assert(all[i as int] == name@);
        if same(name, "/") || same(name, ".") || same(name, "..") {
            plain = false;
            assert(all.take(i as int + 1)[i as int] == name@);
        } else {
            assert forall|k: int| 0 <= k < i + 1 && plain implies (#[trigger] all.take(i as int + 1)[k])
                != "/"@ && all.take(i as int + 1)[k] != "."@ && all.take(i as int + 1)[k] != ".."@ by {
                if k < i {
                    assert(all.take(i as int)[k] == all[k]);
                }
            }
            assert(!plain ==> !all_plain(all.take(i as int + 1))) by {
                if !plain {
                    let k = choose|k: int|
                        0 <= k < i && !((#[trigger] all.take(i as int)[k]) != "/"@ && all.take(
                            i as int,
                        )[k] != "."@ && all.take(i as int)[k] != ".."@);
                    assert(all.take(i as int + 1)[k] == all.take(i as int)[k]);
                }
            }
        }
        if same(name, ".git") || same(name, ".dispatch") {
            found_reserved = true;
            assert(reserved(all[i as int]));
        }
        i += 1;
    }
    assert(all.take(all.len() as int) =~= all);
    if !plain || has_char(value, '\\') {
        return Err(with_value("unsafe repository-relative path: ", value));
    }
    if found_reserved {
        return Err(with_value("reserved path: ", value));
    }
    let mut current = String::new();
    let mut k: usize = 0;
    while k < parts.len()
        invariant
            k <= parts.len(),
            all == texts(parts@),
            all == components(value@),
            current@ == joined(all.take(k as int)),
            forall|j: int|
                1 <= j <= k ==> #[trigger] tree.at(joined(all.take(j))) != Some(PathKind::Symlink),
            value@.len() > 0,
            byte_len(value@) <= 512,
            all_plain(all),
            !value@.contains('\\'),
            !(exists|i: int| 0 <= i < all.len() && reserved(#[trigger] all[i])),
        decreases parts.len() - k,
    {
        assert(all.take(k as int + 1).drop_last() =~= all.take(k as int));
        assert(all.take(k as int + 1).last() == parts@[k as int]@);
        if k > 0 {
            current.push_str("/");
        }
        current.push_str(parts[k].as_str());
        assert(current@ =~= joined(all.take(k as int + 1)));
        if let Some(kind) = tree.get(current.as_str()) {
            if *kind == PathKind::Symlink {
                assert(tree.at(joined(all.take(k as int + 1))) == Some(PathKind::Symlink));
                return Err(with_value("scope contains a symlink: ", value));
            }
        }
        k += 1;
    }
    Ok(current)
}

/// Whether `file` lies at or below `scope`, by whole components.
pub open spec fn within(scope: Seq<char>, file: Seq<char>) -> bool {
    let s = components(scope);
    let f = components(file);
    s.len() <= f.len() && f.take(s.len() as int) == s
}

/// Whether `file` lies at or below `scope`, by whole components.
pub fn contains(scope: &str, file: &str) -> (r: bool)
    ensures
        r == within(scope@, file@),
{
    let s = components_of(scope);
    let f = components_of(file);
    let ghost a = texts(s@);
    let ghost b = texts(f@);
    if s.len() > f.len() {
        return false;
    }
    let mut i: usize = 0;
    while i < s.len()
        invariant
            i <= s.len() <= f.len(),
            a == texts(s@),
            b == texts(f@),
            a == components(scope@),
            b == components(file@),
            forall|k: int| 0 <= k < i ==> a[k] == b[k],
        decreases s.len() - i,
    {
        if !same(s[i].as_str(), f[i].as_str()) {
            assert(b.take(a.len() as int)[i as int] != a[i as int]);
            return false;
        }
        i += 1;
    }
    assert(b.take(a.len() as int) =~= a);
    true
}

/// Why one routine scope of a policy is refused, from its path at `from` on.
pub open spec fn scope_path_error(
    tree: TextMap<PathKind>,
    paths: Seq<String>,
    from: int,
) -> Option<Seq<char>>
    decreases paths.len() - from,
{
    if from < 0 || from >= paths.len() {
        None
    } else if path_error(tree, paths[from]@) is Some {
        path_error(tree, paths[from]@)
    } else {
        scope_path_error(tree, paths, from + 1)
    }
}

/// Looks for the first path that is refused.
fn first_path_error(tree: &TextMap<PathKind>, paths: &Vec<String>) -> (r: Option<String>)
    ensures
        optional_view(r) == scope_path_error(*tree, paths@, 0),
{
    let mut i: usize = 0;
    while i < paths.len()
        invariant
            i <= paths.len(),
            scope_path_error(*tree, paths@, 0) == scope_path_error(*tree, paths@, i as int),
        decreases paths.len() - i,
    {
        if let Err(message) = path(tree, paths[i].as_str()) {
            return Some(message);
        }
        i += 1;
    }
    None
}

/// Why the verification path at `from` or a later one is refused.
pub open spec fn verification_path_error(
    tree: TextMap<PathKind>,
    paths: Seq<String>,
    from: int,
) -> Option<Seq<char>>
    decreases paths.len() - from,
{
    if from < 0 || from >= paths.len() {
        None
    } else if path_error(tree, paths[from]@) is Some {
        path_error(tree, paths[from]@)
    } else if tree.at(joined(components(paths[from]@))) is None {
        Some("verification path is missing: "@ + paths[from]@)
    } else {
        verification_path_error(tree, paths, from + 1)
    }
}

/// Why the routine scope at `from` or a later one is refused.
pub open spec fn routine_error(
    tree: TextMap<PathKind>,
    rules: Seq<RoutineScope>,
    commands: Seq<String>,
    from: int,
) -> Option<Seq<char>>
    decreases rules.len() - from,
{
    if from < 0 || from >= rules.len() {
        None
    } else if rules[from].paths@.len() == 0 || rules[from].checks@.len() == 0 {
        Some("routine scope requires paths and approved check references"@)
    } else if scope_path_error(tree, rules[from].paths@, 0) is Some {
        scope_path_error(tree, rules[from].paths@, 0)
    } else if exists|i: int|
        0 <= i < rules[from].checks@.len() && catalogued(
            commands,
            (#[trigger] rules[from].checks@[i])@,
        ) is None {
        Some("routine scope refers to an unapproved check"@)
    } else {
        routine_error(tree, rules, commands, from + 1)
    }
}

/// Why a project may not be planned for, if it may not.
pub open spec fn policy_error(tree: TextMap<PathKind>, config: PlanningRules) -> Option<Seq<char>> {
    if config.verify@.len() == 0 {
        Some("planned execution requires owner-approved executable checks"@)
    } else if config.planning.verification_paths@.len() == 0 {
        Some(
            "planned execution requires planning.verification_paths identifying the original tests and check scripts"@,
        )
    } else if config.planning.verification_paths@.len() > 64 || config.planning.routine@.len()
        > 32 {
        Some("planning policy too large"@)
    } else if verification_path_error(tree, config.planning.verification_paths@, 0) is Some {
        verification_path_error(tree, config.planning.verification_paths@, 0)
    } else {
        routine_error(tree, config.planning.routine@, config.verify@, 0)
    }
}

/// Whether the owner's policy lets the project be planned for. `tree` says what stands at the
/// paths that the policy names.
pub fn validate_policy(tree: &TextMap<PathKind>, config: &PlanningRules) -> (r: Result<(), String>)
    ensures
        match policy_error(*tree, *config) {
            Some(message) => r matches Err(e) && e@ == message,
            None => r is Ok,
        },
{
    if config.verify.len() == 0 {
        return Err("planned execution requires owner-approved executable checks".to_owned());
    }
    if config.planning.verification_paths.len() == 0 {
        return Err(
            "planned execution requires planning.verification_paths identifying the original tests and check scripts".to_owned(),
        );
    }
    if config.planning.verification_paths.len() > 64 || config.planning.routine.len() > 32 {
        return Err("planning policy too large".to_owned());
    }
    let names = &config.planning.verification_paths;
    let mut i: usize = 0;
    while i < names.len()
        invariant
            i <= names.len(),
            names@ == config.planning.verification_paths@,
            0 < config.verify@.len(),
            0 < config.planning.verification_paths@.len() <= 64,
            config.planning.routine@.len() <= 32,
            verification_path_error(*tree, names@, 0) == verification_path_error(
                *tree,
                names@,
                i as int,
            ),
        decreases names.len() - i,
    {
        match path(tree, names[i].as_str()) {
            Err(message) => {
                return Err(message);
            },
            Ok(normal) => {
                if !tree.contains_key(normal.as_str()) {
                    return Err(with_value("verification path is missing: ", names[i].as_str()));
                }
            },
        }
        i += 1;
    }
    let approved = catalog(&config.verify);
    let rules = &config.planning.routine;
    let mut k: usize = 0;
    while k < rules.len()
        invariant
            k <= rules.len(),
            rules@ == config.planning.routine@,
            0 < config.verify@.len(),
            0 < config.planning.verification_paths@.len() <= 64,
            config.planning.routine@.len() <= 32,
            verification_path_error(*tree, config.planning.verification_paths@, 0) is None,
            forall|id: Seq<char>| #[trigger] approved.at(id) == catalogued(config.verify@, id),
            routine_error(*tree, rules@, config.verify@, 0) == routine_error(
                *tree,
                rules@,
                config.verify@,
                k as int,
            ),
        decreases rules.len() - k,
    {
        let rule = &rules[k];
        if rule.paths.len() == 0 || rule.checks.len() == 0 {
            return Err("routine scope requires paths and approved check references".to_owned());
        }
        if let Some(message) = first_path_error(tree, &rule.paths) {
            return Err(message);
        }
        let mut c: usize = 0;
        while c < rule.checks.len()
            invariant
                c <= rule.checks.len(),
                forall|id: Seq<char>| #[trigger] approved.at(id) == catalogued(config.verify@, id),
                forall|j: int|
                    0 <= j < c ==> catalogued(config.verify@, (#[trigger] rule.checks@[j])@) is Some,
            ensures
                c <= rule.checks.len(),
                forall|j: int|
                    0 <= j < c ==> catalogued(config.verify@, (#[trigger] rule.checks@[j])@) is Some,
                c < rule.checks.len() ==> catalogued(config.verify@, rule.checks@[c as int]@) is None,
            decreases rule.checks.len() - c,
        {
            if !approved.contains_key(rule.checks[c].as_str()) {
                break ;
            }
            c += 1;
        }
        if c < rule.checks.len() {
            return Err("routine scope refers to an unapproved check".to_owned());
        }
        k += 1;
    }
    Ok(())
}

/// Whether a list of texts is neither empty nor too long, and none of its texts is blank or too
/// long.
pub open spec fn within_bounds(values: Seq<String>, max: int) -> bool {
    &&& 0 < values.len() <= max
    &&& forall|i: int|
        0 <= i < values.len() ==> !is_blank((#[trigger] values[i])@) && byte_len(values[i]@)
            <= 2048
}

fn bounded(values: &Vec<String>, max: usize) -> (r: bool)
    ensures
        r == within_bounds(values@, max as int),
{
    if values.len() == 0 || values.len() > max {
        return false;
    }
    let mut i: usize = 0;
    while i < values.len()
        invariant
            i <= values.len(),
            forall|k: int|
                0 <= k < i ==> !is_blank((#[trigger] values@[k])@) && byte_len(values@[k]@) <= 2048,
        decreases values.len() - i,
    {
        if blank(values[i].as_str()) || bytes_in(values[i].as_str()) > 2048 {
            return false;
        }
        i += 1;
    }
    true
}

/// The task with the identifier `id`: the first one.
pub open spec fn task_with(tasks: Seq<TaskSpec>, id: Seq<char>) -> Option<TaskSpec>
    decreases tasks.len(),
{
    if tasks.len() == 0 {
        None
    } else if tasks[0].id@ == id {
        Some(tasks[0])
    } else {
        task_with(tasks.drop_first(), id)
    }
}

pub(crate) proof fn task_with_is_listed(tasks: Seq<TaskSpec>, id: Seq<char>)
    ensures
        match task_with(tasks, id) {
            Some(t) => exists|i: int| 0 <= i < tasks.len() && #[trigger] tasks[i] == t && t.id@ == id,
            None => forall|i: int| 0 <= i < tasks.len() ==> (#[trigger] tasks[i]).id@ != id,
        },
    decreases tasks.len(),
{
    if tasks.len() > 0 && tasks[0].id@ != id {
        let rest = tasks.drop_first();
        task_with_is_listed(rest, id);
        match task_with(tasks, id) {
            Some(t) => {
                let i = choose|i: int| 0 <= i < rest.len() && #[trigger] rest[i] == t && t.id@ == id;
                assert(tasks[i + 1] == t);
            },
            None => {
                assert forall|i: int| 0 <= i < tasks.len() implies (#[trigger] tasks[i]).id@ != id by {
                    if i > 0 {
                        assert(tasks[i] == rest[i - 1]);
                    }
                }
            },
        }
    } else if tasks.len() > 0 {
        assert(tasks[0] == task_with(tasks, id)->0);
    }
}

proof fn task_with_at(tasks: Seq<TaskSpec>, id: Seq<char>, i: int)
    requires
        0 <= i < tasks.len(),
        tasks[i].id@ == id,
        forall|j: int| 0 <= j < i ==> (#[trigger] tasks[j]).id@ != id,
    ensures
        task_with(tasks, id) == Some(tasks[i]),
    decreases tasks.len(),
{
    if i > 0 {
        assert(tasks[0].id@ != id);
        let rest = tasks.drop_first();
        assert forall|j: int| 0 <= j < i - 1 implies (#[trigger] rest[j]).id@ != id by {
            assert(rest[j] == tasks[j + 1]);
        }
        task_with_at(rest, id, i - 1);
    }
}

pub(crate) fn find_task(tasks: &Vec<TaskSpec>, id: &str) -> (r: Option<usize>)
    ensures
        match r {
            Some(i) => i < tasks.len() && task_with(tasks@, id@) == Some(tasks@[i as int]),
            None => task_with(tasks@, id@) is None,
        },
{
    let mut i: usize = 0;
    while i < tasks.len()
        invariant
            i <= tasks.len(),
            forall|j: int| 0 <= j < i ==> (#[trigger] tasks@[j]).id@ != id@,
        decreases tasks.len() - i,
    {
        if same(tasks[i].id.as_str(), id) {
            proof {
                task_with_at(tasks@, id@, i as int);
            }
            return Some(i);
        }
        i += 1;
    }
    proof {
        task_with_is_listed(tasks@, id@);
    }
    None
}

/// Whether the task `a` names `b` as a prerequisite.
pub open spec fn requires_directly(tasks: Seq<TaskSpec>, a: Seq<char>, b: Seq<char>) -> bool {
    match task_with(tasks, a) {
        Some(t) => holds(t.prerequisites@, b),
        None => false,
    }
}

/// Whether `b` is reached from `a` over at most `steps` prerequisites, at least one.
pub open spec fn reaches(tasks: Seq<TaskSpec>, a: Seq<char>, b: Seq<char>, steps: nat) -> bool
    decreases steps,
{
    steps > 0 && (requires_directly(tasks, a, b) || exists|m: Seq<char>|
        #[trigger] requires_directly(tasks, a, m) && reaches(tasks, m, b, (steps - 1) as nat))
}

/// Whether `a` depends on `b`, directly or over other tasks.
pub open spec fn depends_on(tasks: Seq<TaskSpec>, a: Seq<char>, b: Seq<char>) -> bool {
    exists|steps: nat| reaches(tasks, a, b, steps)
}

proof fn reaches_further(tasks: Seq<TaskSpec>, a: Seq<char>, m: Seq<char>, b: Seq<char>, steps: nat)
    requires
        reaches(tasks, a, m, steps),
        requires_directly(tasks, m, b),
    ensures
        reaches(tasks, a, b, steps + 1),
    decreases steps,
{
    if requires_directly(tasks, a, m) {
        assert(reaches(tasks, m, b, steps));
    } else {
        let k = choose|k: Seq<char>|
            #[trigger] requires_directly(tasks, a, k) && reaches(tasks, k, m, (steps - 1) as nat);
        reaches_further(tasks, k, m, b, (steps - 1) as nat);
    }
}

/// Every text that a task names as a prerequisite.
spec fn mentioned(tasks: Seq<TaskSpec>) -> Seq<Seq<char>>
    decreases tasks.len(),
{
    if tasks.len() == 0 {
        Seq::empty()
    } else {
        mentioned(tasks.drop_last()) + texts(tasks.last().prerequisites@)
    }
}

proof fn prerequisite_is_mentioned(tasks: Seq<TaskSpec>, i: int, k: int)
    requires
        0 <= i < tasks.len(),
        0 <= k < tasks[i].prerequisites@.len(),
    ensures
        mentioned(tasks).contains(tasks[i].prerequisites@[k]@),
    decreases tasks.len(),
{
    let last = texts(tasks.last().prerequisites@);
    let earlier = mentioned(tasks.drop_last());
    if i == tasks.len() - 1 {
        assert(mentioned(tasks)[earlier.len() + k] == last[k]);
    } else {
        prerequisite_is_mentioned(tasks.drop_last(), i, k);
        let j = choose|j: int| 0 <= j < earlier.len() && earlier[j] == tasks[i].prerequisites@[k]@;
        assert(mentioned(tasks)[j] == earlier[j]);
    }
}

proof fn listed_once_is_not_longer(a: Seq<Seq<char>>, b: Seq<Seq<char>>)
    requires
        a.no_duplicates(),
        forall|i: int| 0 <= i < a.len() ==> b.contains(#[trigger] a[i]),
    ensures
        a.len() <= b.len(),
{
    a.unique_seq_to_set();
    b.lemma_cardinality_of_set();
    assert(a.to_set().subset_of(b.to_set())) by {
        assert forall|x: Seq<char>| a.to_set().contains(x) implies b.to_set().contains(x) by {
            let i = choose|i: int| 0 <= i < a.len() && a[i] == x;
            assert(b.contains(a[i]));
        }
    }
    vstd::set_lib::lemma_len_subset(a.to_set(), b.to_set());
}

proof fn closed_set_is_never_left(
    tasks: Seq<TaskSpec>,
    visited: Seq<Seq<char>>,
    a: Seq<char>,
    b: Seq<char>,
    steps: nat,
)
    requires
        visited.contains(a),
        forall|v: Seq<char>, w: Seq<char>|
            visited.contains(v) && #[trigger] requires_directly(tasks, v, w) ==> w != b
                && visited.contains(w),
    ensures
        !reaches(tasks, a, b, steps),
    decreases steps,
{
    if reaches(tasks, a, b, steps) {
        if !requires_directly(tasks, a, b) {
            let m = choose|m: Seq<char>|
                #[trigger] requires_directly(tasks, a, m) && reaches(tasks, m, b, (steps - 1) as nat);
            closed_set_is_never_left(tasks, visited, m, b, (steps - 1) as nat);
        }
    }
}

/// Whether the task `task` depends on `prerequisite`, directly or over other tasks.
pub fn depends(plan: &Plan, task: &str, prerequisite: &str) -> (r: bool)
    ensures
        r == depends_on(plan.tasks@, task@, prerequisite@),
{
    let tasks = &plan.tasks;
    let ghost universe = seq![task@] + mentioned(tasks@);
    let mut visited: Vec<String> = Vec::new();
    let mut pending: Vec<String> = Vec::new();
    pending.push(task.to_owned());
    assert(universe[0] == task@);
    assert(pending@[0]@ == task@);
    while pending.len() > 0
        invariant
            tasks@ == plan.tasks@,
            universe == seq![task@] + mentioned(tasks@),
            forall|i: int|
                0 <= i < pending.len() ==> {
                    &&& universe.contains((#[trigger] pending@[i])@)
                    &&& pending@[i]@ == task@ || depends_on(tasks@, task@, pending@[i]@)
                },
            texts(visited@).no_duplicates(),
            forall|i: int| 0 <= i < visited.len() ==> universe.contains(#[trigger] texts(visited@)[i]),
            forall|v: Seq<char>, w: Seq<char>|
                holds(visited@, v) && #[trigger] requires_directly(tasks@, v, w) ==> w
                    != prerequisite@ && (holds(visited@, w) || holds(pending@, w)),
            holds(visited@, task@) || holds(pending@, task@),
        decreases universe.len() - visited.len(), pending.len(),
    {
        let ghost waiting = pending@;
        let id = pending.pop().unwrap();
        let ghost rest = pending@;
        assert(waiting =~= rest.push(id));
        assert(waiting[waiting.len() - 1] == id);
        if holds_text(&visited, id.as_str()) {
            proof {
                assert forall|w: Seq<char>| holds(waiting, w) implies holds(visited@, w) || holds(
                    rest,
                    w,
                ) by {
                    let i = choose|i: int| 0 <= i < waiting.len() && (#[trigger] waiting[i])@ == w;
                    if i < rest.len() {
                        assert(rest[i]@ == w);
                    }
                }
            }
            continue ;
        }
        let ghost seen = visited@;
        let copy = id.clone();
        visited.push(copy);
        proof {
            assert(texts(visited@) =~= texts(seen).push(id@));
            assert forall|i: int| 0 <= i < seen.len() implies texts(seen)[i] != id@ by {
                assert(seen[i]@ != id@);
            }
            assert(texts(visited@).no_duplicates());
            assert forall|i: int| 0 <= i < visited.len() implies universe.contains(
                #[trigger] texts(visited@)[i],
            ) by {
                if i < seen.len() {
                    assert(texts(seen)[i] == texts(visited@)[i]);
                }
            }
            listed_once_is_not_longer(texts(visited@), universe);
            assert(visited@[seen.len() as int]@ == id@);
            assert forall|w: Seq<char>| holds(seen, w) implies holds(visited@, w) by {
                let i = choose|i: int| 0 <= i < seen.len() && (#[trigger] seen[i])@ == w;
                assert(visited@[i]@ == w);
            }
            assert forall|w: Seq<char>| holds(waiting, w) implies holds(visited@, w) || holds(
                rest,
                w,
            ) by {
                let i = choose|i: int| 0 <= i < waiting.len() && (#[trigger] waiting[i])@ == w;
                if i < rest.len() {
                    assert(rest[i]@ == w);
                }
            }
            assert forall|v: Seq<char>, w: Seq<char>|
                v != id@ && holds(visited@, v) && #[trigger] requires_directly(
                    tasks@,
                    v,
                    w,
                ) implies w != prerequisite@ && (holds(visited@, w) || holds(rest, w)) by {
                let i = choose|i: int| 0 <= i < visited.len() && (#[trigger] visited@[i])@ == v;
                assert(seen[i]@ == v);
                assert(holds(seen, v));
            }
        }
        match find_task(tasks, id.as_str()) {
            None => {},
            Some(t) => {
                let prerequisites = &tasks[t].prerequisites;
                let mut k: usize = 0;
                while k < prerequisites.len()
                    invariant
                        k <= prerequisites.len(),
                        t < tasks.len(),
                        tasks@ == plan.tasks@,
                        prerequisites@ == tasks@[t as int].prerequisites@,
                        task_with(tasks@, id@) == Some(tasks@[t as int]),
                        universe == seq![task@] + mentioned(tasks@),
                        id@ == task@ || depends_on(tasks@, task@, id@),
                        pending.len() == rest.len() + k,
                        forall|i: int| 0 <= i < rest.len() ==> #[trigger] pending@[i] == rest[i],
                        forall|i: int|
                            0 <= i < k ==> #[trigger] pending@[rest.len() + i]@ == prerequisites@[i]@,
                        forall|i: int|
                            0 <= i < pending.len() ==> {
                                &&& universe.contains((#[trigger] pending@[i])@)
                                &&& pending@[i]@ == task@ || depends_on(tasks@, task@, pending@[i]@)
                            },
                        forall|i: int|
                            0 <= i < k ==> (#[trigger] prerequisites@[i])@ != prerequisite@,
                    decreases prerequisites.len() - k,
                {
                    let p = &prerequisites[k];
                    proof {
                        assert(holds(prerequisites@, p@));
                        assert(requires_directly(tasks@, id@, p@));
                        assert(depends_on(tasks@, task@, p@)) by {
                            if id@ == task@ {
                                assert(reaches(tasks@, task@, p@, 1));
                            } else {
                                let n = choose|n: nat| reaches(tasks@, task@, id@, n);
                                reaches_further(tasks@, task@, id@, p@, n);
                            }
                        }
                        prerequisite_is_mentioned(tasks@, t as int, k as int);
                        let m = mentioned(tasks@);
                        let j = choose|j: int| 0 <= j < m.len() && m[j] == p@;
                        assert(universe[j + 1] == p@);
                    }
                    if same(p.as_str(), prerequisite) {
                        return true;
                    }
                    pending.push(p.clone());
                    k += 1;
                }
                proof {
                    assert forall|w: Seq<char>| holds(rest, w) implies holds(pending@, w) by {
                        let i = choose|i: int| 0 <= i < rest.len() && (#[trigger] rest[i])@ == w;
                        assert(pending@[i]@ == w);
                    }
                    assert forall|w: Seq<char>| requires_directly(tasks@, id@, w) implies w
                        != prerequisite@ && holds(pending@, w) by {
                        let i = choose|i: int|
                            0 <= i < prerequisites.len() && (#[trigger] prerequisites@[i])@ == w;
                        assert(pending@[rest.len() + i]@ == w);
                    }
                }
            },
        }
    }
    proof {
        let v = texts(visited@);
        assert forall|w: Seq<char>| holds(visited@, w) == v.contains(w) by {
            if holds(visited@, w) {
                let i = choose|i: int| 0 <= i < visited.len() && (#[trigger] visited@[i])@ == w;
                assert(v[i] == w);
            }
            if v.contains(w) {
                let i = choose|i: int| 0 <= i < v.len() && v[i] == w;
                assert(visited@[i]@ == w);
            }
        }
        assert(!holds(pending@, task@));
        assert forall|a: Seq<char>, w: Seq<char>|
            v.contains(a) && #[trigger] requires_directly(tasks@, a, w) implies w != prerequisite@
            && v.contains(w) by {
            assert(holds(visited@, a));
            assert(!holds(pending@, w));
        }
        assert forall|steps: nat| !reaches(tasks@, task@, prerequisite@, steps) by {
            closed_set_is_never_left(tasks@, v, task@, prerequisite@, steps);
        }
    }
    false
}

/// Whether the task at `i` can be taken next: it is not done and its prerequisites are.
pub open spec fn runnable(tasks: Seq<TaskSpec>, done: Seq<Seq<char>>, i: int) -> bool {
    &&& 0 <= i < tasks.len()
    &&& !done.contains(tasks[i].id@)
    &&& forall|k: int|
        0 <= k < tasks[i].prerequisites@.len() ==> done.contains(
            (#[trigger] tasks[i].prerequisites@[k])@,
        )
}

/// Whether `id` is the first in order among the tasks that can be taken next.
pub open spec fn comes_next(tasks: Seq<TaskSpec>, done: Seq<Seq<char>>, id: Seq<char>) -> bool {
    &&& exists|i: int| #[trigger] runnable(tasks, done, i) && tasks[i].id@ == id
    &&& forall|j: int| #[trigger] runnable(tasks, done, j) ==> !before(tasks[j].id@, id)
}

/// Whether every identifier in `done` was the one to take next when it was taken.
pub open spec fn taken_in_order(tasks: Seq<TaskSpec>, done: Seq<Seq<char>>) -> bool {
    forall|k: int| 0 <= k < done.len() ==> comes_next(tasks, #[trigger] done.take(k), done[k])
}

/// Whether taking tasks in order comes to a point where some are left and none can be taken.
pub open spec fn stuck(tasks: Seq<TaskSpec>) -> bool {
    exists|done: Seq<Seq<char>>| #[trigger]
        taken_in_order(tasks, done) && done.len() < tasks.len() && forall|i: int|
            !(#[trigger] runnable(tasks, done, i))
}

fn can_run(task: &TaskSpec, done: &Vec<String>) -> (r: bool)
    ensures
        r == (!texts(done@).contains(task.id@) && forall|k: int|
            0 <= k < task.prerequisites@.len() ==> texts(done@).contains(
                (#[trigger] task.prerequisites@[k])@,
            )),
{
    proof {
        holds_is_contains(done@);
    }
    if holds_text(done, task.id.as_str()) {
        return false;
    }
    let mut k: usize = 0;
    while k < task.prerequisites.len()
        invariant
            k <= task.prerequisites.len(),
            forall|w: Seq<char>| #[trigger] holds(done@, w) == texts(done@).contains(w),
            forall|j: int|
                0 <= j < k ==> texts(done@).contains((#[trigger] task.prerequisites@[j])@),
        decreases task.prerequisites.len() - k,
    {
        if !holds_text(done, task.prerequisites[k].as_str()) {
            assert(!texts(done@).contains(task.prerequisites@[k as int]@));
            return false;
        }
        k += 1;
    }
    true
}

proof fn holds_is_contains(v: Seq<String>)
    ensures
        forall|w: Seq<char>| #[trigger] holds(v, w) == texts(v).contains(w),
{
    assert forall|w: Seq<char>| #[trigger] holds(v, w) == texts(v).contains(w) by {
        if holds(v, w) {
            let i = choose|i: int| 0 <= i < v.len() && (#[trigger] v[i])@ == w;
            assert(texts(v)[i] == w);
        }
        if texts(v).contains(w) {
            let i = choose|i: int| 0 <= i < texts(v).len() && texts(v)[i] == w;
            assert(v[i]@ == w);
        }
    }
}

/// The order in which the tasks of a plan are carried out: of those whose prerequisites are done,
/// the one with the first identifier.
pub fn order(plan: &Plan) -> (r: Result<Vec<String>, String>)
    ensures
        match r {
            Ok(ids) => ids@.len() == plan.tasks@.len() && taken_in_order(plan.tasks@, texts(ids@)),
            Err(e) => e@ == "cyclic task dependencies"@ && stuck(plan.tasks@),
        },
{
    let tasks = &plan.tasks;
    let mut done: Vec<String> = Vec::new();
    while done.len() < tasks.len()
        invariant
            tasks@ == plan.tasks@,
            done.len() <= tasks.len(),
            taken_in_order(tasks@, texts(done@)),
        decreases tasks.len() - done.len(),
    {
        let ghost taken = texts(done@);
        let mut next: Option<usize> = None;
        let mut i: usize = 0;
        while i < tasks.len()
            invariant
                i <= tasks.len(),
                taken == texts(done@),
                match next {
                    Some(n) => runnable(tasks@, taken, n as int) && n < i && forall|j: int|
                        0 <= j < i && #[trigger] runnable(tasks@, taken, j) ==> !before(
                            tasks@[j].id@,
                            tasks@[n as int].id@,
                        ),
                    None => forall|j: int| 0 <= j < i ==> !(#[trigger] runnable(tasks@, taken, j)),
                },
            decreases tasks.len() - i,
        {
            if can_run(&tasks[i], &done) {
                assert(runnable(tasks@, taken, i as int));
                match next {
                    None => {
                        next = Some(i);
                        proof {
                            before_is_irreflexive(tasks@[i as int].id@);
                        }
                    },
                    Some(n) => {
                        if sorts_before(tasks[i].id.as_str(), tasks[n].id.as_str()) {
                            next = Some(i);
                            proof {
                                before_is_irreflexive(tasks@[i as int].id@);
                                assert forall|j: int|
                                    0 <= j < i + 1 && #[trigger] runnable(
                                        tasks@,
                                        taken,
                                        j,
                                    ) implies !before(tasks@[j].id@, tasks@[i as int].id@) by {
                                    if j < i && before(tasks@[j].id@, tasks@[i as int].id@) {
                                        before_is_transitive(
                                            tasks@[j].id@,
                                            tasks@[i as int].id@,
                                            tasks@[n as int].id@,
                                        );
                                    }
                                }
                            }
                        }
                    },
                }
            } else {
                assert(!runnable(tasks@, taken, i as int));
            }
            i += 1;
        }
        match next {
            Some(n) => {
                let id = tasks[n].id.clone();
                let ghost name = id@;
                done.push(id);
                proof {
                    assert(texts(done@) =~= taken.push(name));
                    assert(comes_next(tasks@, taken, name));
                    assert forall|k: int| 0 <= k < texts(done@).len() implies comes_next(
                        tasks@,
                        #[trigger] texts(done@).take(k),
                        texts(done@)[k],
                    ) by {
                        if k < taken.len() {
                            assert(texts(done@).take(k) =~= taken.take(k));
                        } else {
                            assert(texts(done@).take(k) =~= taken);
                        }
                    }
                }
            },
            None => {
                assert(taken_in_order(tasks@, taken) && taken.len() < tasks@.len());
                return Err("cyclic task dependencies".to_owned());
            },
        }
    }
    Ok(done)
}

/// Why the task at `i` is refused by itself, if it is.
pub open spec fn task_error(
    tree: TextMap<PathKind>,
    approved: TextMap<String>,
    tasks: Seq<TaskSpec>,
    i: int,
) -> Option<Seq<char>> {
    let t = tasks[i];
    if t.id@.len() == 0 || byte_len(t.id@) > 48 || !all_word(t.id@) || (exists|j: int|
        0 <= j < i && (#[trigger] tasks[j]).id@ == t.id@) {
        Some("invalid or duplicate task ID"@)
    } else if is_blank(t.objective@) || byte_len(t.objective@) > 4096 || !within_bounds(t.read@, 32)
        || !within_bounds(t.write@, 32) || !within_bounds(t.acceptance@, 8) || !within_bounds(
        t.checks@,
        16,
    ) || !within_bounds(t.inputs@, 8) || !within_bounds(t.outputs@, 8) {
        Some("task "@ + t.id@ + " has missing or oversized contract fields"@)
    } else if scope_path_error(tree, t.read@, 0) is Some {
        scope_path_error(tree, t.read@, 0)
    } else if scope_path_error(tree, t.write@, 0) is Some {
        scope_path_error(tree, t.write@, 0)
    } else if (exists|k: int|
        0 <= k < t.checks@.len() && approved.at((#[trigger] t.checks@[k])@) is None) || !distinct(
        t.checks@,
    ) {
        Some("task "@ + t.id@ + " requires unknown or duplicate checks"@)
    } else {
        None
    }
}

/// Why the task at `from` or a later one is refused by itself.
pub open spec fn tasks_error(
    tree: TextMap<PathKind>,
    approved: TextMap<String>,
    tasks: Seq<TaskSpec>,
    from: int,
) -> Option<Seq<char>>
    decreases tasks.len() - from,
{
    if from < 0 || from >= tasks.len() {
        None
    } else if task_error(tree, approved, tasks, from) is Some {
        task_error(tree, approved, tasks, from)
    } else {
        tasks_error(tree, approved, tasks, from + 1)
    }
}

/// Whether the prerequisites of the task at `i` are few, distinct and other tasks of the plan.
pub open spec fn prerequisites_fit(tasks: Seq<TaskSpec>, i: int) -> bool {
    let p = tasks[i].prerequisites@;
    &&& p.len() <= 3
    &&& distinct(p)
    &&& forall|k: int|
        0 <= k < p.len() ==> (#[trigger] p[k])@ != tasks[i].id@ && task_with(tasks, p[k]@) is Some
}

/// Why the prerequisites of the task at `from` or a later one are refused.
pub open spec fn prerequisites_error(tasks: Seq<TaskSpec>, from: int) -> Option<Seq<char>>
    decreases tasks.len() - from,
{
    if from < 0 || from >= tasks.len() {
        None
    } else if !prerequisites_fit(tasks, from) {
        Some("invalid dependency for "@ + tasks[from].id@)
    } else {
        prerequisites_error(tasks, from + 1)
    }
}

/// Whether two tasks may write below one another.
pub open spec fn writes_overlap(a: TaskSpec, b: TaskSpec) -> bool {
    exists|i: int, j: int|
        0 <= i < a.write@.len() && 0 <= j < b.write@.len() && paths_overlap(
            (#[trigger] a.write@[i])@,
            (#[trigger] b.write@[j])@,
        )
}

/// Whether one path lies at or below the other.
pub open spec fn paths_overlap(p: Seq<char>, q: Seq<char>) -> bool {
    within(p, q) || within(q, p)
}

/// Whether the tasks at `i` and `j` write to disjoint places or one depends on the other.
pub open spec fn writes_ordered(tasks: Seq<TaskSpec>, i: int, j: int) -> bool {
    ||| !writes_overlap(tasks[i], tasks[j])
    ||| depends_on(tasks, tasks[i].id@, tasks[j].id@)
    ||| depends_on(tasks, tasks[j].id@, tasks[i].id@)
}

/// Why the pair of tasks at `i` and `j`, or a later pair, is refused: pairs in order, the first
/// task before the second.
pub open spec fn overlap_error(tasks: Seq<TaskSpec>, i: int, j: int) -> Option<Seq<char>>
    decreases tasks.len() - i, tasks.len() - j,
{
    if i < 0 || i >= tasks.len() {
        None
    } else if j < 0 || j >= tasks.len() {
        overlap_error(tasks, i + 1, i + 2)
    } else if !writes_ordered(tasks, i, j) {
        Some(
            "shared write scopes require an explicit dependency: "@ + tasks[i].id@ + " / "@
                + tasks[j].id@,
        )
    } else {
        overlap_error(tasks, i, j + 1)
    }
}

/// Why a plan is refused, if it is.
pub open spec fn plan_error(
    plan: Plan,
    tree: TextMap<PathKind>,
    approved: TextMap<String>,
    remaining: u32,
) -> Option<Seq<char>> {
    let tasks = plan.tasks@;
    if plan.version != 1 || tasks.len() < 1 || tasks.len() > 4 {
        Some("plan must contain one to four tasks using version 1"@)
    } else if tasks.len() > remaining {
        Some("plan exceeds remaining initial-invocation budget"@)
    } else if tasks_error(tree, approved, tasks, 0) is Some {
        tasks_error(tree, approved, tasks, 0)
    } else if prerequisites_error(tasks, 0) is Some {
        prerequisites_error(tasks, 0)
    } else if stuck(tasks) {
        Some("cyclic task dependencies"@)
    } else {
        overlap_error(tasks, 0, 1)
    }
}

fn check_task(
    tree: &TextMap<PathKind>,
    approved: &TextMap<String>,
    tasks: &Vec<TaskSpec>,
    i: usize,
) -> (r: Option<String>)
    requires
        i < tasks.len(),
    ensures
        optional_view(r) == task_error(*tree, *approved, tasks@, i as int),
{
    let t = &tasks[i];
    let mut repeated = false;
    let mut j: usize = 0;
    while j < i
        invariant
            j <= i < tasks.len(),
            *t == tasks@[i as int],
            repeated == (exists|k: int| 0 <= k < j && (#[trigger] tasks@[k]).id@ == t.id@),
        decreases i - j,
    {
        if same(tasks[j].id.as_str(), t.id.as_str()) {
            repeated = true;
            assert(tasks@[j as int].id@ == t.id@);
        }
        j += 1;
    }
    if t.id.as_str().is_empty() || bytes_in(t.id.as_str()) > 48 || !only_word(t.id.as_str())
        || repeated {
        return Some("invalid or duplicate task ID".to_owned());
    }
    if blank(t.objective.as_str()) || bytes_in(t.objective.as_str()) > 4096 || !bounded(&t.read, 32)
        || !bounded(&t.write, 32) || !bounded(&t.acceptance, 8) || !bounded(&t.checks, 16)
        || !bounded(&t.inputs, 8) || !bounded(&t.outputs, 8) {
        let mut out = "task ".to_owned();
        out.push_str(t.id.as_str());
        out.push_str(" has missing or oversized contract fields");
        return Some(out);
    }
    if let Some(message) = first_path_error(tree, &t.read) {
        return Some(message);
    }
    if let Some(message) = first_path_error(tree, &t.write) {
        return Some(message);
    }
    let mut known = true;
    let mut k: usize = 0;
    while k < t.checks.len()
        invariant
            k <= t.checks.len(),
            known == (forall|m: int|
                0 <= m < k ==> approved.at((#[trigger] t.checks@[m])@) is Some),
        decreases t.checks.len() - k,
    {
        if !approved.contains_key(t.checks[k].as_str()) {
            known = false;
            assert(approved.at(t.checks@[k as int]@) is None);
        }
        k += 1;
    }
    if !known || !all_distinct(&t.checks) {
        let mut out = "task ".to_owned();
        out.push_str(t.id.as_str());
        out.push_str(" requires unknown or duplicate checks");
        return Some(out);
    }
    None
}

fn check_prerequisites(tasks: &Vec<TaskSpec>, i: usize) -> (r: bool)
    requires
        i < tasks.len(),
    ensures
        r == prerequisites_fit(tasks@, i as int),
{
    let p = &tasks[i].prerequisites;
    if p.len() > 3 || !all_distinct(p) {
        return false;
    }
    let mut k: usize = 0;
    while k < p.len()
        invariant
            k <= p.len(),
            i < tasks.len(),
            p@ == tasks@[i as int].prerequisites@,
            forall|j: int|
                0 <= j < k ==> (#[trigger] p@[j])@ != tasks@[i as int].id@ && task_with(
                    tasks@,
                    p@[j]@,
                ) is Some,
        decreases p.len() - k,
    {
        if same(p[k].as_str(), tasks[i].id.as_str()) || find_task(tasks, p[k].as_str()).is_none() {
            return false;
        }
        k += 1;
    }
    true
}

fn overlapping(a: &TaskSpec, b: &TaskSpec) -> (r: bool)
    ensures
        r == writes_overlap(*a, *b),
{
    let mut i: usize = 0;
    while i < a.write.len()
        invariant
            i <= a.write.len(),
            forall|m: int, n: int|
                0 <= m < i && 0 <= n < b.write.len() ==> !paths_overlap(
                    (#[trigger] a.write@[m])@,
                    (#[trigger] b.write@[n])@,
                ),
        decreases a.write.len() - i,
    {
        let mut j: usize = 0;
        while j < b.write.len()
            invariant
                i < a.write.len(),
                j <= b.write.len(),
                forall|n: int|
                    0 <= n < j ==> !paths_overlap(a.write@[i as int]@, (#[trigger] b.write@[n])@),
            decreases b.write.len() - j,
        {
            if contains(a.write[i].as_str(), b.write[j].as_str()) || contains(
                b.write[j].as_str(),
                a.write[i].as_str(),
            ) {
                assert(paths_overlap(a.write@[i as int]@, b.write@[j as int]@));
                return true;
            }
            j += 1;
        }
        i += 1;
    }
    false
}

/// Whether a plan may be carried out: its tasks are bounded, safe and approved, their dependencies
/// are acyclic, and tasks that write to the same place depend on one another. `tree` says what
/// stands at the paths that the plan names.
pub fn validate(
    plan: &Plan,
    tree: &TextMap<PathKind>,
    planning: &Planning,
    remaining: u32,
) -> (r: Result<(), String>)
    ensures
        match plan_error(*plan, *tree, planning.approved_checks, remaining) {
            Some(message) => r matches Err(e) && e@ == message,
            None => r is Ok,
        },
{
    let tasks = &plan.tasks;
    if plan.version != 1 || tasks.len() < 1 || tasks.len() > 4 {
        return Err("plan must contain one to four tasks using version 1".to_owned());
    }
    if tasks.len() > remaining as usize {
        return Err("plan exceeds remaining initial-invocation budget".to_owned());
    }
    let approved = &planning.approved_checks;
    let mut i: usize = 0;
    while i < tasks.len()
        invariant
            i <= tasks.len(),
            tasks@ == plan.tasks@,
            *approved == planning.approved_checks,
            plan.version == 1,
            1 <= tasks.len() <= 4,
            tasks.len() <= remaining,
            tasks_error(*tree, *approved, tasks@, 0) == tasks_error(
                *tree,
                *approved,
                tasks@,
                i as int,
            ),
        decreases tasks.len() - i,
    {
        if let Some(message) = check_task(tree, approved, tasks, i) {
            return Err(message);
        }
        i += 1;
    }
    let mut k: usize = 0;
    while k < tasks.len()
        invariant
            k <= tasks.len(),
            tasks@ == plan.tasks@,
            *approved == planning.approved_checks,
            plan.version == 1,
            1 <= tasks.len() <= 4,
            tasks.len() <= remaining,
            tasks_error(*tree, *approved, tasks@, 0) is None,
            prerequisites_error(tasks@, 0) == prerequisites_error(tasks@, k as int),
        decreases tasks.len() - k,
    {
        if !check_prerequisites(tasks, k) {
            return Err(with_value("invalid dependency for ", tasks[k].id.as_str()));
        }
        k += 1;
    }
    match order(plan) {
        Err(message) => {
            return Err(message);
        },
        Ok(ids) => {
            proof {
                complete_order_is_not_stuck(tasks@, texts(ids@));
            }
        },
    }
    let mut a: usize = 0;
    while a < tasks.len()
        invariant
            a <= tasks.len(),
            tasks@ == plan.tasks@,
            *approved == planning.approved_checks,
            plan.version == 1,
            1 <= tasks.len() <= 4,
            tasks.len() <= remaining,
            tasks_error(*tree, *approved, tasks@, 0) is None,
            prerequisites_error(tasks@, 0) is None,
            !stuck(tasks@),
            overlap_error(tasks@, 0, 1) == overlap_error(tasks@, a as int, a as int + 1),
        decreases tasks.len() - a,
    {
        let mut b: usize = a + 1;
        while b < tasks.len()
            invariant
                a < b <= tasks.len(),
                tasks@ == plan.tasks@,
                *approved == planning.approved_checks,
                plan.version == 1,
                1 <= tasks.len() <= 4,
                tasks.len() <= remaining,
                tasks_error(*tree, *approved, tasks@, 0) is None,
                prerequisites_error(tasks@, 0) is None,
                !stuck(tasks@),
                overlap_error(tasks@, 0, 1) == overlap_error(tasks@, a as int, b as int),
            decreases tasks.len() - b,
        {
            if overlapping(&tasks[a], &tasks[b]) && !depends(
                plan,
                tasks[a].id.as_str(),
                tasks[b].id.as_str(),
            ) && !depends(plan, tasks[b].id.as_str(), tasks[a].id.as_str()) {
                let mut out = "shared write scopes require an explicit dependency: ".to_owned();
                out.push_str(tasks[a].id.as_str());
                out.push_str(" / ");
                out.push_str(tasks[b].id.as_str());
                return Err(out);
            }
            b += 1;
        }
        a += 1;
    }
    Ok(())
}

/// The longest plan that is read, in bytes.
pub const MAX_PLAN: usize = 32_768;

/// Refuses a plan that is too long before it is read.
pub fn check_length(text: &str) -> (r: Result<(), String>)
    ensures
        if byte_len(text@) > MAX_PLAN {
            r matches Err(e) && e@ == "plan exceeds 32 KiB"@
        } else {
            r is Ok
        },
{
    if bytes_in(text) > MAX_PLAN {
        Err("plan exceeds 32 KiB".to_owned())
    } else {
        Ok(())
    }
}

/// The plan that the final text of a planner holds, or why it is refused. `read` is the plan in the text's
/// envelope, if the text is one.
pub fn parse(
    text: &str,
    read: Option<Plan>,
    tree: &TextMap<PathKind>,
    planning: &Planning,
    remaining: u32,
) -> (r: Result<Plan, String>)
    ensures
        if byte_len(text@) > MAX_PLAN {
            r matches Err(e) && e@ == "plan exceeds 32 KiB"@
        } else {
            match read {
                None => r matches Err(e) && e@ == "final result must be one dispatch_plan envelope"@,
                Some(plan) => match plan_error(plan, *tree, planning.approved_checks, remaining) {
                    Some(message) => r matches Err(e) && e@ == message,
                    None => r == Ok::<Plan, String>(plan),
                },
            }
        },
{
    if let Err(e) = check_length(text) {
        return Err(e);
    }
    match read {
        None => Err("final result must be one dispatch_plan envelope".to_owned()),
        Some(plan) => match validate(&plan, tree, planning, remaining) {
            Ok(()) => Ok(plan),
            Err(e) => Err(e),
        },
    }
}

proof fn next_is_unique(tasks: Seq<TaskSpec>, done: Seq<Seq<char>>, a: Seq<char>, b: Seq<char>)
    requires
        comes_next(tasks, done, a),
        comes_next(tasks, done, b),
    ensures
        a == b,
{
    let i = choose|i: int| #[trigger] runnable(tasks, done, i) && tasks[i].id@ == a;
    let j = choose|j: int| #[trigger] runnable(tasks, done, j) && tasks[j].id@ == b;
    assert(runnable(tasks, done, i) && runnable(tasks, done, j));
    before_is_total(a, b);
}

/// There is one way to take tasks in order: of two sequences taken in order, one begins the other.
pub proof fn taking_in_order_is_unique(tasks: Seq<TaskSpec>, a: Seq<Seq<char>>, b: Seq<Seq<char>>)
    requires
        taken_in_order(tasks, a),
        taken_in_order(tasks, b),
        a.len() <= b.len(),
    ensures
        b.take(a.len() as int) == a,
    decreases a.len(),
{
    if a.len() > 0 {
        let n = a.len() - 1;
        let shorter = a.take(n);
        assert forall|k: int| 0 <= k < shorter.len() implies comes_next(
            tasks,
            #[trigger] shorter.take(k),
            shorter[k],
        ) by {
            assert(shorter.take(k) =~= a.take(k));
        }
        taking_in_order_is_unique(tasks, shorter, b);
        assert(b.take(n) == a.take(n));
        assert(comes_next(tasks, a.take(n), a[n]));
        assert(comes_next(tasks, b.take(n), b[n]));
        next_is_unique(tasks, a.take(n), a[n], b[n]);
        assert(b.take(a.len() as int) =~= b.take(n).push(b[n]));
        assert(a =~= a.take(n).push(a[n]));
    } else {
        assert(b.take(0) =~= a);
    }
}

/// A plan whose tasks can all be taken in order never comes to a point where none can be taken.
pub proof fn complete_order_is_not_stuck(tasks: Seq<TaskSpec>, ids: Seq<Seq<char>>)
    requires
        taken_in_order(tasks, ids),
        ids.len() == tasks.len(),
    ensures
        !stuck(tasks),
{
    if stuck(tasks) {
        let done = choose|done: Seq<Seq<char>>| #[trigger]
            taken_in_order(tasks, done) && done.len() < tasks.len() && forall|i: int|
                !(#[trigger] runnable(tasks, done, i));
        taking_in_order_is_unique(tasks, done, ids);
        let k = done.len() as int;
        assert(comes_next(tasks, ids.take(k), ids[k]));
        assert(ids.take(k) == done);
        let i = choose|i: int| #[trigger] runnable(tasks, done, i) && tasks[i].id@ == ids[k];
        assert(runnable(tasks, done, i));
    }
}

/// No identifier is taken twice.
pub proof fn taken_once(tasks: Seq<TaskSpec>, ids: Seq<Seq<char>>)
    requires
        taken_in_order(tasks, ids),
    ensures
        ids.no_duplicates(),
{
    assert forall|a: int, b: int| 0 <= a < b < ids.len() implies ids[a] != ids[b] by {
        assert(comes_next(tasks, ids.take(b), ids[b]));
        let i = choose|i: int| #[trigger] runnable(tasks, ids.take(b), i) && tasks[i].id@ == ids[b];
        assert(runnable(tasks, ids.take(b), i));
        assert(ids.take(b)[a] == ids[a]);
    }
}

/// Where the tasks have distinct identifiers, a complete order holds each task once, and each one
/// after all of its prerequisites.
pub proof fn order_respects_dependencies(tasks: Seq<TaskSpec>, ids: Seq<Seq<char>>, a: int)
    requires
        taken_in_order(tasks, ids),
        ids.len() == tasks.len(),
        forall|i: int, j: int|
            0 <= i < j < tasks.len() ==> (#[trigger] tasks[i]).id@ != (#[trigger] tasks[j]).id@,
        0 <= a < tasks.len(),
    ensures
        ids.no_duplicates(),
        exists|k: int|
            0 <= k < ids.len() && #[trigger] ids[k] == tasks[a].id@ && forall|p: int|
                0 <= p < tasks[a].prerequisites@.len() ==> ids.take(k).contains(
                    (#[trigger] tasks[a].prerequisites@[p])@,
                ),
{
    taken_once(tasks, ids);
    let names = Seq::new(tasks.len(), |i: int| tasks[i].id@);
    assert(ids.contains(tasks[a].id@)) by {
        if !ids.contains(tasks[a].id@) {
            let more = ids.push(tasks[a].id@);
            assert(more.no_duplicates()) by {
                assert forall|i: int, j: int| 0 <= i < j < more.len() implies more[i] != more[j] by {
                    if j == ids.len() {
                        assert(ids[i] != tasks[a].id@);
                    }
                }
            }
            assert forall|i: int| 0 <= i < more.len() implies names.contains(#[trigger] more[i]) by {
                if i < ids.len() {
                    assert(comes_next(tasks, ids.take(i), ids[i]));
                    let t = choose|t: int| #[trigger]
                        runnable(tasks, ids.take(i), t) && tasks[t].id@ == ids[i];
                    assert(runnable(tasks, ids.take(i), t));
                    assert(names[t] == ids[i]);
                } else {
                    assert(names[a] == more[i]);
                }
            }
            listed_once_is_not_longer(more, names);
        }
    }
    let k = choose|k: int| 0 <= k < ids.len() && ids[k] == tasks[a].id@;
    assert(comes_next(tasks, ids.take(k), ids[k]));
    let t = choose|t: int| #[trigger] runnable(tasks, ids.take(k), t) && tasks[t].id@ == ids[k];
    assert(runnable(tasks, ids.take(k), t));
    if t != a {
        if t < a {
            assert(tasks[t].id@ != tasks[a].id@);
        } else {
            assert(tasks[a].id@ != tasks[t].id@);
        }
    }
    assert(ids[k] == tasks[a].id@);
}

proof fn accepted_tasks_are_distinct(
    tree: TextMap<PathKind>,
    approved: TextMap<String>,
    tasks: Seq<TaskSpec>,
    from: int,
)
    requires
        tasks_error(tree, approved, tasks, from) is None,
        0 <= from,
    ensures
        forall|i: int| from <= i < tasks.len() ==> #[trigger] task_error(
            tree,
            approved,
            tasks,
            i,
        ) is None,
    decreases tasks.len() - from,
{
    if from < tasks.len() {
        accepted_tasks_are_distinct(tree, approved, tasks, from + 1);
    }
}

proof fn later_task_is_reached_later(
    tasks: Seq<TaskSpec>,
    ids: Seq<Seq<char>>,
    a: Seq<char>,
    b: Seq<char>,
    k: int,
    steps: nat,
)
    requires
        taken_in_order(tasks, ids),
        ids.len() == tasks.len(),
        forall|i: int, j: int|
            0 <= i < j < tasks.len() ==> (#[trigger] tasks[i]).id@ != (#[trigger] tasks[j]).id@,
        0 <= k < ids.len(),
        ids[k] == a,
        reaches(tasks, a, b, steps),
    ensures
        ids.take(k).contains(b),
    decreases steps,
{
    taken_once(tasks, ids);
    task_with_is_listed(tasks, a);
    let t = task_with(tasks, a)->0;
    let i = choose|i: int| 0 <= i < tasks.len() && #[trigger] tasks[i] == t && t.id@ == a;
    order_respects_dependencies(tasks, ids, i);
    let n = choose|n: int|
        0 <= n < ids.len() && #[trigger] ids[n] == tasks[i].id@ && forall|p: int|
            0 <= p < tasks[i].prerequisites@.len() ==> ids.take(n).contains(
                (#[trigger] tasks[i].prerequisites@[p])@,
            );
    assert(n == k);
    if requires_directly(tasks, a, b) {
        let p = choose|p: int|
            0 <= p < t.prerequisites@.len() && (#[trigger] t.prerequisites@[p])@ == b;
        assert(ids.take(k).contains(tasks[i].prerequisites@[p]@));
    } else {
        let m = choose|m: Seq<char>| #[trigger]
            requires_directly(tasks, a, m) && reaches(tasks, m, b, (steps - 1) as nat);
        let p = choose|p: int|
            0 <= p < t.prerequisites@.len() && (#[trigger] t.prerequisites@[p])@ == m;
        assert(ids.take(k).contains(tasks[i].prerequisites@[p]@));
        let q = choose|q: int| 0 <= q < ids.take(k).len() && ids.take(k)[q] == m;
        assert(ids[q] == m);
        later_task_is_reached_later(tasks, ids, m, b, q, (steps - 1) as nat);
        let r = choose|r: int| 0 <= r < ids.take(q).len() && ids.take(q)[r] == b;
        assert(ids.take(k)[r] == b);
    }
}

proof fn first_runnable(tasks: Seq<TaskSpec>, done: Seq<Seq<char>>, bound: int) -> (m: int)
    requires
        0 <= bound <= tasks.len(),
        exists|i: int| i < bound && #[trigger] runnable(tasks, done, i),
    ensures
        0 <= m < bound,
        runnable(tasks, done, m),
        forall|j: int|
            j < bound && #[trigger] runnable(tasks, done, j) ==> !before(tasks[j].id@, tasks[m].id@),
    decreases bound,
{
    let last = bound - 1;
    if exists|i: int| i < last && #[trigger] runnable(tasks, done, i) {
        let m = first_runnable(tasks, done, last);
        if runnable(tasks, done, last) && before(tasks[last].id@, tasks[m].id@) {
            assert forall|j: int| j < bound && #[trigger] runnable(tasks, done, j) implies !before(
                tasks[j].id@,
                tasks[last].id@,
            ) by {
                if j == last {
                    before_is_irreflexive(tasks[last].id@);
                } else if before(tasks[j].id@, tasks[last].id@) {
                    before_is_transitive(tasks[j].id@, tasks[last].id@, tasks[m].id@);
                }
            }
            last
        } else {
            m
        }
    } else {
        before_is_irreflexive(tasks[last].id@);
        last
    }
}

proof fn complete_order(tasks: Seq<TaskSpec>, n: nat) -> (ids: Seq<Seq<char>>)
    requires
        !stuck(tasks),
        n <= tasks.len(),
    ensures
        ids.len() == n,
        taken_in_order(tasks, ids),
    decreases n,
{
    if n == 0 {
        Seq::empty()
    } else {
        let done = complete_order(tasks, (n - 1) as nat);
        assert(exists|i: int| #[trigger] runnable(tasks, done, i));
        let i = choose|i: int| #[trigger] runnable(tasks, done, i);
        assert(i < tasks.len() && runnable(tasks, done, i));
        let m = first_runnable(tasks, done, tasks.len() as int);
        let id = tasks[m].id@;
        assert(comes_next(tasks, done, id)) by {
            assert(runnable(tasks, done, m));
        }
        let ids = done.push(id);
        assert forall|k: int| 0 <= k < ids.len() implies comes_next(
            tasks,
            #[trigger] ids.take(k),
            ids[k],
        ) by {
            if k < done.len() {
                assert(ids.take(k) =~= done.take(k));
            } else {
                assert(ids.take(k) =~= done);
            }
        }
        ids
    }
}

/// In an accepted plan no task depends on itself.
pub proof fn accepted_plan_is_acyclic(
    plan: Plan,
    tree: TextMap<PathKind>,
    approved: TextMap<String>,
    remaining: u32,
    a: Seq<char>,
)
    requires
        plan_error(plan, tree, approved, remaining) is None,
    ensures
        !depends_on(plan.tasks@, a, a),
{
    let tasks = plan.tasks@;
    let ids = complete_order(tasks, tasks.len());
    accepted_tasks_are_distinct(tree, approved, tasks, 0);
    assert forall|i: int, j: int| 0 <= i < j < tasks.len() implies (#[trigger] tasks[i]).id@ != (
    #[trigger] tasks[j]).id@ by {
        assert(task_error(tree, approved, tasks, j) is None);
    }
    if depends_on(tasks, a, a) {
        let steps = choose|steps: nat| reaches(tasks, a, a, steps);
        assert(task_with(tasks, a) is Some);
        task_with_is_listed(tasks, a);
        let t = task_with(tasks, a)->0;
        let i = choose|i: int| 0 <= i < tasks.len() && #[trigger] tasks[i] == t && t.id@ == a;
        order_respects_dependencies(tasks, ids, i);
        let k = choose|k: int| 0 <= k < ids.len() && #[trigger] ids[k] == tasks[i].id@;
        later_task_is_reached_later(tasks, ids, a, a, k, steps);
        let q = choose|q: int| 0 <= q < ids.take(k).len() && ids.take(k)[q] == a;
        assert(ids[q] == a);
        taken_once(tasks, ids);
    }
}

proof fn no_overlap_error_means_ordered(tasks: Seq<TaskSpec>, i: int, j: int, a: int, b: int)
    requires
        overlap_error(tasks, i, j) is None,
        0 <= i < j,
        i <= a < b < tasks.len(),
        i == a ==> j <= b,
    ensures
        writes_ordered(tasks, a, b),
    decreases tasks.len() - i, tasks.len() - j,
{
    if j >= tasks.len() {
        no_overlap_error_means_ordered(tasks, i + 1, i + 2, a, b);
    } else if !(i == a && j == b) {
        no_overlap_error_means_ordered(tasks, i, j + 1, a, b);
    }
}

/// In an accepted plan two tasks that may write to the same place are ordered by a dependency.
pub proof fn accepted_plan_orders_shared_writes(
    plan: Plan,
    tree: TextMap<PathKind>,
    approved: TextMap<String>,
    remaining: u32,
    a: int,
    b: int,
)
    requires
        plan_error(plan, tree, approved, remaining) is None,
        0 <= a < b < plan.tasks@.len(),
        writes_overlap(plan.tasks@[a], plan.tasks@[b]),
    ensures
        depends_on(plan.tasks@, plan.tasks@[a].id@, plan.tasks@[b].id@) || depends_on(
            plan.tasks@,
            plan.tasks@[b].id@,
            plan.tasks@[a].id@,
        ),
{
    no_overlap_error_means_ordered(plan.tasks@, 0, 1, a, b);
}

/// Whether every path that the task writes lies in one of the scope's paths, and the task runs
/// every check that the scope asks for.
pub open spec fn routine_covers(rule: RoutineScope, task: TaskSpec) -> bool {
    &&& forall|i: int|
        0 <= i < task.write@.len() ==> covered(rule.paths@, (#[trigger] task.write@[i])@)
    &&& forall|k: int|
        0 <= k < rule.checks@.len() ==> holds(task.checks@, (#[trigger] rule.checks@[k])@)
}

/// Whether a file lies at or below one of the scopes.
pub open spec fn covered(scopes: Seq<String>, file: Seq<char>) -> bool {
    exists|j: int| 0 <= j < scopes.len() && within((#[trigger] scopes[j])@, file)
}

/// Whether a task is routine: few existing files, in a scope that the owner declared routine.
pub open spec fn is_routine(
    task: TaskSpec,
    kinds: Seq<Option<PathKind>>,
    policy: PlanningConfig,
) -> bool {
    &&& task.write@.len() <= 2
    &&& forall|i: int| 0 <= i < task.write@.len() ==> #[trigger] kinds[i] == Some(PathKind::File)
    &&& exists|r: int| 0 <= r < policy.routine@.len() && routine_covers(#[trigger] policy.routine@[r], task)
}

/// Whether a path written by a task reaches beyond one file: a directory, or an interface that
/// other files share.
pub open spec fn is_shared(path: Seq<char>, kind: Option<PathKind>) -> bool {
    kind == Some(PathKind::Directory) || ends_in(path, ".h"@) || ends_in(path, ".proto"@)
}

/// Whether a task writes broadly.
pub open spec fn is_broad(task: TaskSpec, kinds: Seq<Option<PathKind>>) -> bool {
    task.write@.len() > 4 || exists|i: int|
        0 <= i < task.write@.len() && is_shared((#[trigger] task.write@[i])@, kinds[i])
}

/// The tier that a task runs at, and the ground for it.
pub open spec fn lane_of(
    task: TaskSpec,
    kinds: Seq<Option<PathKind>>,
    policy: PlanningConfig,
) -> (ResourceTier, Seq<char>) {
    if is_routine(task, kinds, policy) {
        (
            ResourceTier::Light,
            "validated existing-file scope + owner routine/check mapping; acceptance text remains a proposal"@,
        )
    } else if is_broad(task, kinds) {
        (
            ResourceTier::Strong,
            "shared interface, directory, or broad write contract; planner difficulty not trusted"@,
        )
    } else {
        (
            ResourceTier::Standard,
            "bounded validated file contract; risk/check relevance unknown"@,
        )
    }
}

fn covers(rule: &RoutineScope, task: &TaskSpec) -> (r: bool)
    ensures
        r == routine_covers(*rule, *task),
{
    let mut i: usize = 0;
    while i < task.write.len()
        invariant
            i <= task.write.len(),
            forall|k: int| 0 <= k < i ==> covered(rule.paths@, (#[trigger] task.write@[k])@),
        decreases task.write.len() - i,
    {
        let mut found = false;
        let mut j: usize = 0;
        while j < rule.paths.len()
            invariant
                i < task.write.len(),
                j <= rule.paths.len(),
                found == (exists|k: int|
                    0 <= k < j && within((#[trigger] rule.paths@[k])@, task.write@[i as int]@)),
            decreases rule.paths.len() - j,
        {
            if contains(rule.paths[j].as_str(), task.write[i].as_str()) {
                found = true;
                assert(within(rule.paths@[j as int]@, task.write@[i as int]@));
            }
            j += 1;
        }
        if !found {
            assert(!covered(rule.paths@, task.write@[i as int]@));
            return false;
        }
        i += 1;
    }
    let mut k: usize = 0;
    while k < rule.checks.len()
        invariant
            k <= rule.checks.len(),
            forall|j: int| 0 <= j < k ==> holds(task.checks@, (#[trigger] rule.checks@[j])@),
        decreases rule.checks.len() - k,
    {
        if !holds_text(&task.checks, rule.checks[k].as_str()) {
            return false;
        }
        k += 1;
    }
    true
}

/// The tier that a task runs at, and the ground for it. `kinds` says, for each path that the task
/// writes, what stands there when links are followed. A model's natural-language labels cannot
/// establish risk or check relevance.
pub fn lane(
    task: &TaskSpec,
    kinds: &Vec<Option<PathKind>>,
    policy: &PlanningConfig,
) -> (r: (ResourceTier, String))
    requires
        kinds@.len() == task.write@.len(),
    ensures
        (r.0, r.1@) == lane_of(*task, kinds@, *policy),
{
    let mut files = true;
    let mut shared = false;
    let mut i: usize = 0;
    while i < task.write.len()
        invariant
            i <= task.write.len(),
            kinds@.len() == task.write@.len(),
            files == (forall|k: int| 0 <= k < i ==> #[trigger] kinds@[k] == Some(PathKind::File)),
            shared == (exists|k: int|
                0 <= k < i && is_shared((#[trigger] task.write@[k])@, kinds@[k])),
        decreases task.write.len() - i,
    {
        let kind = kinds[i];
        let is_file = match kind {
            Some(PathKind::File) => true,
            _ => false,
        };
        let is_directory = match kind {
            Some(PathKind::Directory) => true,
            _ => false,
        };
        if !is_file {
            files = false;
            assert(kinds@[i as int] != Some(PathKind::File));
        }
        if is_directory || has_suffix(task.write[i].as_str(), ".h") || has_suffix(
            task.write[i].as_str(),
            ".proto",
        ) {
            shared = true;
            assert(is_shared(task.write@[i as int]@, kinds@[i as int]));
        }
        i += 1;
    }
    let mut owned = false;
    let mut r: usize = 0;
    while r < policy.routine.len()
        invariant
            r <= policy.routine.len(),
            owned == (exists|k: int|
                0 <= k < r && routine_covers(#[trigger] policy.routine@[k], *task)),
        decreases policy.routine.len() - r,
    {
        if covers(&policy.routine[r], task) {
            owned = true;
            assert(routine_covers(policy.routine@[r as int], *task));
        }
        r += 1;
    }
    if task.write.len() <= 2 && files && owned {
        (
            ResourceTier::Light,
            "validated existing-file scope + owner routine/check mapping; acceptance text remains a proposal".to_owned(),
        )
    } else if task.write.len() > 4 || shared {
        (
            ResourceTier::Strong,
            "shared interface, directory, or broad write contract; planner difficulty not trusted".to_owned(),
        )
    } else {
        (
            ResourceTier::Standard,
            "bounded validated file contract; risk/check relevance unknown".to_owned(),
        )
    }
}

/// Without a routine scope of the owner's no task runs at the light tier.
pub proof fn light_needs_owner_scope(
    task: TaskSpec,
    kinds: Seq<Option<PathKind>>,
    policy: PlanningConfig,
)
    requires
        lane_of(task, kinds, policy).0 == ResourceTier::Light,
    ensures
        exists|r: int| 0 <= r < policy.routine@.len() && routine_covers(#[trigger] policy.routine@[r], task),
        forall|i: int| 0 <= i < task.write@.len() ==> #[trigger] kinds[i] == Some(PathKind::File),
{
}

/// The plan of a run, if the run has one.
pub open spec fn planning_of(run: RunRecord) -> Option<Planning> {
    match run.phase3 {
        Some(policy) => policy.planning,
        None => None,
    }
}

/// The plan of a run, if the run has one.
pub fn planning(run: &RunRecord) -> (r: Option<&Planning>)
    ensures
        match r {
            Some(p) => planning_of(*run) == Some(*p),
            None => planning_of(*run) is None,
        },
{
    match &run.phase3 {
        Some(policy) => match &policy.planning {
            Some(p) => Some(p),
            None => None,
        },
        None => None,
    }
}

/// A task that was under way or waiting has failed once its goal is stopped.
pub open spec fn stopped_state(state: TaskState) -> TaskState {
    if state == TaskState::Working || state == TaskState::Waiting {
        TaskState::Failed
    } else {
        state
    }
}

/// Whether `after` is the plan `before` with its active tasks stopped for `reason`: the first
/// reason given stays.
pub open spec fn stopped_plan(before: Planning, after: Planning, reason: Seq<char>) -> bool {
    &&& optional_view(after.error) == (match before.error {
        Some(earlier) => Some(earlier@),
        None => Some(reason),
    })
    &&& after.tasks@.len() == before.tasks@.len()
    &&& forall|i: int|
        0 <= i < before.tasks@.len() ==> #[trigger] after.tasks@[i] == (Task {
            state: stopped_state(before.tasks@[i].state),
            ..before.tasks@[i]
        })
    &&& after == (Planning { error: after.error, tasks: after.tasks, ..before })
}

/// Stops the active tasks of a plan.
pub fn stop_plan(p: &mut Planning, reason: &str)
    ensures
        stopped_plan(*old(p), *final(p), reason@),
{
    if p.error.is_none() {
        p.error = Some(reason.to_owned());
    }
    let ghost before = *old(p);
    let mut i: usize = 0;
    while i < p.tasks.len()
        invariant
            i <= p.tasks@.len(),
            p.tasks@.len() == before.tasks@.len(),
            optional_view(p.error) == (match before.error {
                Some(earlier) => Some(earlier@),
                None => Some(reason@),
            }),
            *p == (Planning { error: p.error, tasks: p.tasks, ..before }),
            forall|k: int|
                0 <= k < i ==> #[trigger] p.tasks@[k] == (Task {
                    state: stopped_state(before.tasks@[k].state),
                    ..before.tasks@[k]
                }),
            forall|k: int| i <= k < p.tasks@.len() ==> #[trigger] p.tasks@[k] == before.tasks@[k],
        decreases p.tasks@.len() - i,
    {
        match p.tasks[i].state {
            TaskState::Working | TaskState::Waiting => {
                p.tasks[i].state = TaskState::Failed;
            },
            _ => {},
        }
        i += 1;
    }
}

/// Stops the active tasks of a run's plan, if the run has one.
pub fn stop_active(run: &mut RunRecord, reason: &str)
    ensures
        match planning_of(*old(run)) {
            None => *final(run) == *old(run),
            Some(before) => {
                &&& planning_of(*final(run)) matches Some(after) && stopped_plan(before, after, reason@)
                &&& *final(run) == (RunRecord { phase3: final(run).phase3, ..*old(run) })
                &&& final(run).phase3->0 == (crate::record::GoalExecution {
                    planning: planning_of(*final(run)),
                    ..old(run).phase3->0
                })
            },
        },
{
    if let Some(policy) = &mut run.phase3 {
        if let Some(p) = &mut policy.planning {
            stop_plan(p, reason);
        }
    }
}

/// Whether a stored text may be written again: only as it stands.
pub fn immutable(old: Option<&str>, json: &str) -> (r: Result<(), String>)
    ensures
        match old {
            Some(stored) => if stored@ == json@ {
                r is Ok
            } else {
                r matches Err(e) && e@ == "immutable lineage changed"@
            },
            None => r is Ok,
        },
{
    match old {
        Some(stored) => if same(stored, json) {
            Ok(())
        } else {
            Err("immutable lineage changed".to_owned())
        },
        None => Ok(()),
    }
}

/// What a planned goal stores before anything else of it: its policy, which never changes, and
/// its plan, which never changes once it is there. `None` stands for nothing stored.
pub fn persist(
    stored_policy: Option<&str>,
    policy: &str,
    stored_plan: Option<&str>,
    plan: Option<&str>,
) -> (r: Result<(), String>)
    ensures
        match r {
            Ok(()) => {
                &&& stored_policy matches Some(s) ==> s@ == policy@
                &&& (stored_plan is Some && plan is Some) ==> stored_plan->0@ == plan->0@
            },
            Err(e) => {
                ||| e@ == "planned goal policy is immutable"@ && stored_policy is Some
                    && stored_policy->0@ != policy@
                ||| e@ == "validated plan is immutable; dependency proposals are separate edges"@ && (
                stored_policy matches Some(s) ==> s@ == policy@) && stored_plan is Some && plan is Some
                    && stored_plan->0@ != plan->0@
            },
        },
{
    if let Some(stored) = stored_policy {
        if !same(stored, policy) {
            return Err("planned goal policy is immutable".to_owned());
        }
    }
    if let (Some(stored), Some(plan)) = (stored_plan, plan) {
        if !same(stored, plan) {
            return Err(
                "validated plan is immutable; dependency proposals are separate edges".to_owned(),
            );
        }
    }
    Ok(())
}

/// A reservation of one of a planned goal's invocations.
#[derive(Debug, Clone, PartialEq, Eq)]
pub struct Invocation {
    pub slot: String,
    pub knowledge: String,
}

/// Whether a reservation counts against the budget: unless its launch is known not to have
/// happened.
pub open spec fn consumes(invocation: Invocation) -> bool {
    invocation.knowledge@ != "launch_intent_committed"@ && invocation.knowledge@
        != "launch_not_started"@
}

/// How many reservations count against the budget.
pub open spec fn consumed(invocations: Seq<Invocation>) -> nat
    decreases invocations.len(),
{
    if invocations.len() == 0 {
        0
    } else {
        consumed(invocations.drop_last()) + (if consumes(invocations.last()) {
            1nat
        } else {
            0nat
        })
    }
}

fn count_consumed(invocations: &Vec<Invocation>) -> (r: usize)
    ensures
        r == consumed(invocations@),
        r <= invocations@.len(),
{
    let mut n: usize = 0;
    let mut i: usize = 0;
    while i < invocations.len()
        invariant
            i <= invocations.len(),
            n <= i,
            n == consumed(invocations@.take(i as int)),
        decreases invocations.len() - i,
    {
        assert(invocations@.take(i as int + 1).drop_last() =~= invocations@.take(i as int));
        let knowledge = invocations[i].knowledge.as_str();
        if !same(knowledge, "launch_intent_committed") && !same(knowledge, "launch_not_started") {
            n += 1;
        }
        i += 1;
    }
    assert(invocations@.take(invocations@.len() as int) =~= invocations@);
    n
}

/// Whether some attempt has begun the task `id`.
pub open spec fn begun(attempts: Seq<AttemptRecord>, id: Seq<char>) -> bool {
    exists|i: int|
        0 <= i < attempts.len() && (#[trigger] attempts[i]).role@ == "task"@ && optional_view(
            attempts[i].detail.task_id,
        ) == Some(id)
}

/// How many tasks no attempt has begun.
pub open spec fn not_begun(tasks: Seq<Task>, attempts: Seq<AttemptRecord>) -> nat
    decreases tasks.len(),
{
    if tasks.len() == 0 {
        0
    } else {
        not_begun(tasks.drop_last(), attempts) + (if begun(attempts, tasks.last().id@) {
            0nat
        } else {
            1nat
        })
    }
}

fn is_begun(attempts: &Vec<AttemptRecord>, id: &str) -> (r: bool)
    ensures
        r == begun(attempts@, id@),
{
    let mut i: usize = 0;
    while i < attempts.len()
        invariant
            i <= attempts.len(),
            forall|k: int|
                0 <= k < i ==> !((#[trigger] attempts@[k]).role@ == "task"@ && optional_view(
                    attempts@[k].detail.task_id,
                ) == Some(id@)),
        decreases attempts.len() - i,
    {
        if same(attempts[i].role.as_str(), "task") && same_optional(
            &attempts[i].detail.task_id,
            Some(id),
        ) {
            return true;
        }
        i += 1;
    }
    false
}

pub(crate) fn count_not_begun(tasks: &Vec<Task>, attempts: &Vec<AttemptRecord>) -> (r: usize)
    ensures
        r == not_begun(tasks@, attempts@),
        r <= tasks@.len(),
{
    let mut n: usize = 0;
    let mut i: usize = 0;
    while i < tasks.len()
        invariant
            i <= tasks.len(),
            n <= i,
            n == not_begun(tasks@.take(i as int), attempts@),
        decreases tasks.len() - i,
    {
        assert(tasks@.take(i as int + 1).drop_last() =~= tasks@.take(i as int));
        if !is_begun(attempts, tasks[i].id.as_str()) {
            n += 1;
        }
        i += 1;
    }
    assert(tasks@.take(tasks@.len() as int) =~= tasks@);
    n
}

/// How many invocations a planned goal may make: what its policy allows, two more than it has
/// tasks, one before there is a plan, and never more than six.
pub open spec fn invocation_cap(max_invocations: u32, p: Planning) -> int {
    let by_plan: int = match p.plan {
        Some(plan) => plan.tasks@.len() as int + 2,
        None => 1,
    };
    let least = if max_invocations < by_plan {
        max_invocations as int
    } else {
        by_plan
    };
    if least < 6 {
        least
    } else {
        6
    }
}

/// Whether the task `id` is under way.
pub open spec fn is_working(tasks: Seq<Task>, id: Seq<char>) -> bool {
    exists|i: int|
        0 <= i < tasks.len() && (#[trigger] tasks[i]).id@ == id && tasks[i].state
            == TaskState::Working
}

/// The attempt with the identifier `id`: the first one.
pub open spec fn attempt_with(attempts: Seq<AttemptRecord>, id: Seq<char>) -> Option<AttemptRecord>
    decreases attempts.len(),
{
    if attempts.len() == 0 {
        None
    } else if attempts[0].id@ == id {
        Some(attempts[0])
    } else {
        attempt_with(attempts.drop_first(), id)
    }
}

/// Looks for the attempt with the identifier `id`.
pub fn find_attempt(attempts: &Vec<AttemptRecord>, id: &str) -> (r: Option<usize>)
    ensures
        match r {
            Some(i) => i < attempts.len() && attempt_with(attempts@, id@) == Some(attempts@[i as int]),
            None => attempt_with(attempts@, id@) is None,
        },
{
    let mut i: usize = 0;
    assert(attempts@.skip(0) =~= attempts@);
    while i < attempts.len()
        invariant
            i <= attempts.len(),
            attempt_with(attempts@, id@) == attempt_with(attempts@.skip(i as int), id@),
        decreases attempts.len() - i,
    {
        assert(attempts@.skip(i as int).drop_first() =~= attempts@.skip(i as int + 1));
        if same(attempts[i].id.as_str(), id) {
            return Some(i);
        }
        i += 1;
    }
    None
}

/// What the fence before a launch gives: the slot to reserve, or why the launch is refused.
pub ghost enum Fenced {
    /// The run is not planned; there is nothing to fence.
    Open,
    /// The slot is reserved for the launch.
    Slot(Seq<char>),
    /// The launch is refused.
    Refused(Seq<char>),
}

/// The slot that an attempt of a planned goal asks for, or why it gets none.
pub open spec fn slot_of(run: RunRecord, p: Planning, a: AttemptRecord, used: int, cap: int) -> Fenced {
    if a.role@ == "planner"@ {
        if p.plan is Some {
            Fenced::Refused("cannot replan"@)
        } else {
            Fenced::Slot("planner"@)
        }
    } else if a.role@ == "task"@ {
        match a.detail.task_id {
            None => Fenced::Refused("task identity missing"@),
            Some(task) => if is_working(p.tasks@, task@) {
                Fenced::Slot("task:"@ + task@)
            } else {
                Fenced::Refused("task is not runnable"@)
            },
        }
    } else if used + not_begun(p.tasks@, run.attempts@) >= cap {
        Fenced::Refused("extra invocation would consume a required task's budget"@)
    } else if a.role@ == "continuation"@ || (a.role@ == "repair"@ && !run.phase3->0.no_retry) {
        Fenced::Slot("extra"@)
    } else {
        Fenced::Refused("unauthorized extra invocation"@)
    }
}

/// Whether the slot is reserved already.
pub open spec fn slot_taken(invocations: Seq<Invocation>, slot: Seq<char>) -> bool {
    exists|i: int| 0 <= i < invocations.len() && (#[trigger] invocations[i]).slot@ == slot
}

/// What the fence before a launch gives.
pub open spec fn fenced(
    run: RunRecord,
    attempt: Seq<char>,
    policy_unchanged: bool,
    now: i64,
    invocations: Seq<Invocation>,
) -> Fenced {
    match planning_of(run) {
        None => Fenced::Open,
        Some(p) => {
            let policy = run.phase3->0;
            let cap = invocation_cap(policy.max_invocations, p);
            if !policy_unchanged {
                Fenced::Refused("persisted planning policy mismatch"@)
            } else if now >= policy.deadline_at || run.outcome.lifecycle == LifecycleState::Finished
                || run.outcome.work_result != WorkResult::Pending {
                Fenced::Refused("planned goal closed or original deadline expired"@)
            } else {
                match attempt_with(run.attempts@, attempt) {
                    None => Fenced::Refused("attempt missing from committed plan"@),
                    Some(a) => if consumed(invocations) >= cap {
                        Fenced::Refused("planned invocation budget exhausted"@)
                    } else {
                        match slot_of(run, p, a, consumed(invocations) as int, cap) {
                            Fenced::Slot(slot) => if slot_taken(invocations, slot) {
                                Fenced::Refused(
                                    "planned slot already reserved; no automatic replay"@,
                                )
                            } else {
                                Fenced::Slot(slot)
                            },
                            other => other,
                        }
                    },
                }
            }
        },
    }
}

fn working(tasks: &Vec<Task>, id: &str) -> (r: bool)
    ensures
        r == is_working(tasks@, id@),
{
    let mut i: usize = 0;
    while i < tasks.len()
        invariant
            i <= tasks.len(),
            forall|k: int|
                0 <= k < i ==> !((#[trigger] tasks@[k]).id@ == id@ && tasks@[k].state
                    == TaskState::Working),
        decreases tasks.len() - i,
    {
        if same(tasks[i].id.as_str(), id) && tasks[i].state == TaskState::Working {
            return true;
        }
        i += 1;
    }
    false
}

fn choose_slot(
    run: &RunRecord,
    p: &Planning,
    a: &AttemptRecord,
    no_retry: bool,
    used: usize,
    cap: usize,
) -> (r: Result<String, String>)
    requires
        run.phase3 is Some,
        run.phase3->0.no_retry == no_retry,
        used < cap <= 6,
    ensures
        match slot_of(*run, *p, *a, used as int, cap as int) {
            Fenced::Slot(slot) => r matches Ok(s) && s@ == slot,
            Fenced::Refused(message) => r matches Err(e) && e@ == message,
            Fenced::Open => false,
        },
{
    if same(a.role.as_str(), "planner") {
        if p.plan.is_some() {
            return Err("cannot replan".to_owned());
        }
        return Ok("planner".to_owned());
    }
    if same(a.role.as_str(), "task") {
        match &a.detail.task_id {
            None => {
                return Err("task identity missing".to_owned());
            },
            Some(task) => {
                if !working(&p.tasks, task.as_str()) {
                    return Err("task is not runnable".to_owned());
                }
                return Ok(with_value("task:", task.as_str()));
            },
        }
    }
    let missing = count_not_begun(&p.tasks, &run.attempts);
    if missing >= cap - used {
        return Err("extra invocation would consume a required task's budget".to_owned());
    }
    if same(a.role.as_str(), "continuation") || (same(a.role.as_str(), "repair") && !no_retry) {
        Ok("extra".to_owned())
    } else {
        Err("unauthorized extra invocation".to_owned())
    }
}

/// Decides whether an attempt of a planned goal may launch, inside the transaction that commits
/// the launch: the slot to reserve, nothing for a run that is not planned, or the refusal.
/// `policy_unchanged` says whether the stored policy is still the run's, `invocations` lists the
/// reservations made so far.
pub fn fence(
    run: &RunRecord,
    attempt: &str,
    policy_unchanged: bool,
    now: i64,
    invocations: &Vec<Invocation>,
) -> (r: Result<Option<String>, String>)
    ensures
        match fenced(*run, attempt@, policy_unchanged, now, invocations@) {
            Fenced::Open => r matches Ok(None),
            Fenced::Slot(slot) => r matches Ok(Some(s)) && s@ == slot,
            Fenced::Refused(message) => r matches Err(e) && e@ == message,
        },
{
    let (policy, p) = match &run.phase3 {
        None => {
            return Ok(None);
        },
        Some(policy) => match &policy.planning {
            None => {
                return Ok(None);
            },
            Some(p) => (policy, p),
        },
    };
    if !policy_unchanged {
        return Err("persisted planning policy mismatch".to_owned());
    }
    if now >= policy.deadline_at || run.outcome.lifecycle == LifecycleState::Finished
        || run.outcome.work_result != WorkResult::Pending {
        return Err("planned goal closed or original deadline expired".to_owned());
    }
    let a = match find_attempt(&run.attempts, attempt) {
        None => {
            return Err("attempt missing from committed plan".to_owned());
        },
        Some(i) => &run.attempts[i],
    };
    let used = count_consumed(invocations);
    let by_plan: usize = match &p.plan {
        Some(plan) => if plan.tasks.len() < 4 {
            plan.tasks.len() + 2
        } else {
            6
        },
        None => 1,
    };
    let allowed: usize = if policy.max_invocations < 6 {
        policy.max_invocations as usize
    } else {
        6
    };
    let cap: usize = if allowed < by_plan {
        allowed
    } else {
        by_plan
    };
    assert(cap == invocation_cap(policy.max_invocations, *p));
    if used >= cap {
        return Err("planned invocation budget exhausted".to_owned());
    }
    match choose_slot(run, p, a, policy.no_retry, used, cap) {
        Err(message) => Err(message),
        Ok(slot) => {
            let mut i: usize = 0;
            while i < invocations.len()
                invariant
                    i <= invocations.len(),
                    forall|k: int| 0 <= k < i ==> (#[trigger] invocations@[k]).slot@ != slot@,
                    fenced(*run, attempt@, policy_unchanged, now, invocations@) == (if slot_taken(
                        invocations@,
                        slot@,
                    ) {
                        Fenced::Refused("planned slot already reserved; no automatic replay"@)
                    } else {
                        Fenced::Slot(slot@)
                    }),
                decreases invocations.len() - i,
            {
                if same(invocations[i].slot.as_str(), slot.as_str()) {
                    return Err("planned slot already reserved; no automatic replay".to_owned());
                }
                i += 1;
            }
            Ok(Some(slot))
        },
    }
}

/// A planned goal never has more launches that count than six, nor more than its policy allows:
/// once that many are reserved no launch passes the fence.
pub proof fn budget_bounds_launches(
    run: RunRecord,
    attempt: Seq<char>,
    policy_unchanged: bool,
    now: i64,
    invocations: Seq<Invocation>,
)
    requires
        planning_of(run) is Some,
        consumed(invocations) >= 6 || consumed(invocations) >= run.phase3->0.max_invocations,
    ensures
        fenced(run, attempt, policy_unchanged, now, invocations) is Refused,
{
}

/// A slot that is reserved is never given again.
pub proof fn slots_are_given_once(
    run: RunRecord,
    attempt: Seq<char>,
    policy_unchanged: bool,
    now: i64,
    invocations: Seq<Invocation>,
)
    ensures
        fenced(run, attempt, policy_unchanged, now, invocations) matches Fenced::Slot(slot)
            ==> !slot_taken(invocations, slot),
{
}

/// Whether a snapshot still is the tree it was taken of: `fingerprint` is what its tree gives now.
pub fn verify_snapshot(snapshot: &Snapshot, fingerprint: &str) -> (r: Result<(), String>)
    ensures
        if fingerprint@ == snapshot.fingerprint@ {
            r is Ok
        } else {
            r matches Err(e) && e@ == "immutable snapshot hash mismatch: "@ + snapshot.id@
        },
{
    if same(fingerprint, snapshot.fingerprint.as_str()) {
        Ok(())
    } else {
        Err(with_value("immutable snapshot hash mismatch: ", snapshot.id.as_str()))
    }
}

/// Whether there is a check and every one passed.
pub open spec fn all_passed(checks: Seq<CheckResult>) -> bool {
    &&& checks.len() > 0
    &&& forall|i: int|
        0 <= i < checks.len() ==> (#[trigger] checks[i]).status == CheckStatus::Passed
            && checks[i].exit_code == Some(0i32)
}

/// Whether there is a check and every one passed.
pub fn checks_passed(checks: &Vec<CheckResult>) -> (r: bool)
    ensures
        r == all_passed(checks@),
{
    if checks.len() == 0 {
        return false;
    }
    let mut i: usize = 0;
    while i < checks.len()
        invariant
            i <= checks.len(),
            forall|k: int|
                0 <= k < i ==> (#[trigger] checks@[k]).status == CheckStatus::Passed
                    && checks@[k].exit_code == Some(0i32),
        decreases checks.len() - i,
    {
        let zero = match checks[i].exit_code {
            Some(code) => code == 0,
            None => false,
        };
        if checks[i].status != CheckStatus::Passed || !zero {
            return false;
        }
        i += 1;
    }
    true
}

/// Whether a snapshot is what an artifact led to.
pub open spec fn is_output(s: Snapshot, a: Artifact) -> bool {
    s.id@ == a.output@ && optional_view(s.parent) == Some(a.input@) && optional_view(s.contribution)
        == Some(a.id@)
}

/// The first snapshot that an artifact led to.
pub open spec fn output_of(snapshots: Seq<Snapshot>, a: Artifact) -> Option<Snapshot>
    decreases snapshots.len(),
{
    if snapshots.len() == 0 {
        None
    } else if is_output(snapshots[0], a) {
        Some(snapshots[0])
    } else {
        output_of(snapshots.drop_first(), a)
    }
}

fn find_output(snapshots: &Vec<Snapshot>, a: &Artifact) -> (r: Option<usize>)
    ensures
        match r {
            Some(i) => i < snapshots.len() && output_of(snapshots@, *a) == Some(snapshots@[i as int]),
            None => output_of(snapshots@, *a) is None,
        },
{
    let mut i: usize = 0;
    assert(snapshots@.skip(0) =~= snapshots@);
    while i < snapshots.len()
        invariant
            i <= snapshots.len(),
            output_of(snapshots@, *a) == output_of(snapshots@.skip(i as int), *a),
        decreases snapshots.len() - i,
    {
        assert(snapshots@.skip(i as int).drop_first() =~= snapshots@.skip(i as int + 1));
        let s = &snapshots[i];
        if same(s.id.as_str(), a.output.as_str()) && same_optional(&s.parent, Some(a.input.as_str()))
            && same_optional(&s.contribution, Some(a.id.as_str())) {
            return Some(i);
        }
        i += 1;
    }
    None
}

/// What is found on disk of an artifact.
#[derive(Debug, Clone, PartialEq, Eq)]
pub struct ArtifactFacts {
    /// The bytes of its patch.
    pub patch: Vec<u8>,
    /// Whether its manifest says what the record says.
    pub manifest_matches: bool,
    /// The fingerprint of the tree of the snapshot that it led to.
    pub fingerprint: String,
}

/// Why an artifact cannot be relied on, if it cannot.
pub open spec fn artifact_error(p: Option<Planning>, a: Artifact, facts: ArtifactFacts) -> Option<Seq<char>> {
    if !all_passed(a.checks@) {
        Some("prerequisite lacks passing checks"@)
    } else if hash_text(facts.patch@) != a.patch_sha256@ {
        Some("artifact patch hash mismatch"@)
    } else if !facts.manifest_matches {
        Some("artifact manifest mismatch"@)
    } else if p is None {
        Some("planning lineage missing"@)
    } else {
        match output_of(p->0.snapshots@, a) {
            None => Some("prerequisite not integrated"@),
            Some(s) => if facts.fingerprint@ != s.fingerprint@ {
                Some("immutable snapshot hash mismatch: "@ + s.id@)
            } else {
                None
            },
        }
    }
}

/// Whether an artifact can be relied on: its checks passed, what is on disk is what was recorded,
/// and it was integrated.
pub fn verify_artifact(
    run: &RunRecord,
    artifact: &Artifact,
    facts: &ArtifactFacts,
) -> (r: Result<(), String>)
    ensures
        match artifact_error(planning_of(*run), *artifact, *facts) {
            Some(message) => r matches Err(e) && e@ == message,
            None => r is Ok,
        },
{
    if !checks_passed(&artifact.checks) {
        return Err("prerequisite lacks passing checks".to_owned());
    }
    if !same(file_hash(facts.patch.as_slice()).as_str(), artifact.patch_sha256.as_str()) {
        return Err("artifact patch hash mismatch".to_owned());
    }
    if !facts.manifest_matches {
        return Err("artifact manifest mismatch".to_owned());
    }
    match planning(run) {
        None => Err("planning lineage missing".to_owned()),
        Some(p) => match find_output(&p.snapshots, artifact) {
            None => Err("prerequisite not integrated".to_owned()),
            Some(i) => verify_snapshot(&p.snapshots[i], facts.fingerprint.as_str()),
        },
    }
}

/// Why the artifact at `from` or a later one cannot be relied on.
pub open spec fn artifacts_error(p: Planning, facts: Seq<ArtifactFacts>, from: int) -> Option<Seq<char>>
    decreases p.artifacts@.len() - from,
{
    if from < 0 || from >= p.artifacts@.len() {
        None
    } else if artifact_error(Some(p), p.artifacts@[from], facts[from]) is Some {
        artifact_error(Some(p), p.artifacts@[from], facts[from])
    } else {
        artifacts_error(p, facts, from + 1)
    }
}

/// Why the delivery of a planned goal cannot be relied on, if it cannot.
pub open spec fn delivery_error(
    run: RunRecord,
    facts: Seq<ArtifactFacts>,
    patch: Seq<u8>,
    fingerprint: Seq<char>,
) -> Option<Seq<char>> {
    match planning_of(run) {
        None => None,
        Some(p) => if run.candidates@.len() == 0 {
            Some("planned goal has no complete delivery"@)
        } else if optional_view(p.final_candidate) != Some(run.candidates@[0].id@) {
            Some("planned delivery identity mismatch"@)
        } else if artifacts_error(p, facts, 0) is Some {
            artifacts_error(p, facts, 0)
        } else if optional_view(p.final_patch_sha256) != Some(hash_text(patch)) {
            Some("final patch hash mismatch"@)
        } else if p.snapshots@.len() == 0 {
            Some("final snapshot missing"@)
        } else if fingerprint != p.snapshots@.last().fingerprint@ {
            Some("immutable snapshot hash mismatch: "@ + p.snapshots@.last().id@)
        } else {
            None
        },
    }
}

/// Whether the delivery of a run can be relied on. A final delivery is a separate immutable root
/// artifact, never a last-child patch. `facts` lists what is found on disk of each artifact,
/// `patch` holds the bytes of the delivered patch, and `fingerprint` is that of the tree of the
/// last snapshot.
pub fn verify_delivery(
    run: &RunRecord,
    facts: &Vec<ArtifactFacts>,
    patch: &Vec<u8>,
    fingerprint: &str,
) -> (r: Result<(), String>)
    requires
        planning_of(*run) matches Some(p) ==> facts@.len() == p.artifacts@.len(),
    ensures
        match delivery_error(*run, facts@, patch@, fingerprint@) {
            Some(message) => r matches Err(e) && e@ == message,
            None => r is Ok,
        },
{
    let p = match planning(run) {
        None => {
            return Ok(());
        },
        Some(p) => p,
    };
    if run.candidates.len() == 0 {
        return Err("planned goal has no complete delivery".to_owned());
    }
    if !same_optional(&p.final_candidate, Some(run.candidates[0].id.as_str())) {
        return Err("planned delivery identity mismatch".to_owned());
    }
    let mut i: usize = 0;
    while i < p.artifacts.len()
        invariant
            i <= p.artifacts.len(),
            planning_of(*run) == Some(*p),
            facts@.len() == p.artifacts@.len(),
            run.candidates@.len() > 0,
            optional_view(p.final_candidate) == Some(run.candidates@[0].id@),
            artifacts_error(*p, facts@, 0) == artifacts_error(*p, facts@, i as int),
        decreases p.artifacts.len() - i,
    {
        if let Err(message) = verify_artifact(run, &p.artifacts[i], &facts[i]) {
            return Err(message);
        }
        i += 1;
    }
    let hash = file_hash(patch.as_slice());
    if !same_optional(&p.final_patch_sha256, Some(hash.as_str())) {
        return Err("final patch hash mismatch".to_owned());
    }
    if p.snapshots.len() == 0 {
        return Err("final snapshot missing".to_owned());
    }
    verify_snapshot(&p.snapshots[p.snapshots.len() - 1], fingerprint)
}

} // verus!
