//! Watching a project in the background, and the record that says who watches.
//!
//! The serve lock decides whether a project is watched: the kernel releases it when its owner exits,
//! crashes or the machine reboots. The record only says whom a stop may signal, and is trusted only
//! while it names the exact live process.

use vstd::prelude::*;
use vstd::utf8::*;

use crate::text::{decimal, decimal_of, joined_lines, lines, same, split_lines, texts};
use crate::digest::{hash_text, text_hash};
use crate::process::{IdentityState, ProcessIdentity};

verus! {

/// Who owns the watching of a root.
#[derive(Debug, Clone, PartialEq, Eq)]
pub struct WatcherRecord {
    pub version: u32,
    pub root: String,
    pub identity: ProcessIdentity,
    pub started_at: i64,
    pub dispatch_version: String,
    pub background: bool,
}

/// Whether a root is watched.
#[derive(Debug, Clone, PartialEq, Eq)]
pub enum Watcher {
    /// The serve lock is held; the record, when there is a readable one for this root, says by whom.
    Watched(Option<WatcherRecord>),
    NotWatched,
}

/// What stands for a root in the names of files.
pub open spec fn root_key(root: Seq<char>) -> Seq<char> {
    hash_text(encode_utf8(root))
}

/// What stands for a root in the names of files.
pub fn key(root: &str) -> (r: String)
    ensures
        r@ == root_key(root@),
{
    text_hash(root)
}

/// The name of the lock that the watcher of a root holds, below the state directory.
pub fn lock_path(root: &str) -> (r: String)
    ensures
        r@ == "locks/serve-"@ + root_key(root@) + ".lock"@,
{
    let mut name = "locks/serve-".to_owned();
    let hash = key(root);
    name.push_str(hash.as_str());
    name.push_str(".lock");
    name
}

/// The name of the record of the watcher of a root, below the state directory.
pub fn record_path(root: &str) -> (r: String)
    ensures
        r@ == "watchers/"@ + root_key(root@) + ".json"@,
{
    let mut name = "watchers/".to_owned();
    let hash = key(root);
    name.push_str(hash.as_str());
    name.push_str(".json");
    name
}

/// A new record of the watcher of a root.
pub fn new_record(
    root: &str,
    identity: ProcessIdentity,
    now: i64,
    version: &str,
    background: bool,
) -> (r: WatcherRecord)
    ensures
        r.version == 1,
        r.root@ == root@,
        r.identity == identity,
        r.started_at == now,
        r.dispatch_version@ == version@,
        r.background == background,
{
    WatcherRecord {
        version: 1,
        root: root.to_owned(),
        identity,
        started_at: now,
        dispatch_version: version.to_owned(),
        background,
    }
}

/// A record that was read, where it is that of the root.
pub open spec fn own_record(record: Option<WatcherRecord>, root: Seq<char>) -> Option<WatcherRecord> {
    match record {
        Some(w) => if w.root@ == root {
            Some(w)
        } else {
            None
        },
        None => None,
    }
}

/// Keeps a record that was read only where it is that of the root.
pub fn read_record(record: Option<WatcherRecord>, root: &str) -> (r: Option<WatcherRecord>)
    ensures
        r == own_record(record, root@),
{
    match record {
        Some(w) => if same(w.root.as_str(), root) {
            Some(w)
        } else {
            None
        },
        None => None,
    }
}

/// Whether a root is watched now: `held` says whether its serve lock exists and is held.
pub fn watcher(held: bool, record: Option<WatcherRecord>, root: &str) -> (r: Watcher)
    ensures
        r == (if held {
            Watcher::Watched(own_record(record, root@))
        } else {
            Watcher::NotWatched
        }),
{
    if held {
        Watcher::Watched(read_record(record, root))
    } else {
        Watcher::NotWatched
    }
}

/// One line on who watches a root.
pub open spec fn description(w: Result<Watcher, String>, since: Seq<char>, version: Seq<char>) -> Seq<
    char,
> {
    match w {
        Ok(Watcher::Watched(Some(record))) => "watched "@ + (if record.background {
            "in the background"@
        } else {
            "by dispatch serve"@
        }) + " since "@ + since + " (pid "@ + decimal(record.identity.pid as nat) + ")"@ + (
        if record.dispatch_version@ != version {
            "; it runs Dispatch "@ + record.dispatch_version@ + ", this is "@ + version
                + ": dispatch stop && dispatch start"@
        } else {
            Seq::empty()
        }),
        Ok(Watcher::Watched(None)) => "watched by a Dispatch process that left no record"@,
        Ok(Watcher::NotWatched) => "not watched · dispatch start"@,
        Err(e) => "watching unknown: "@ + e@,
    }
}

/// One line on who watches a root. `since` is when the record was written, by the local clock.
pub fn describe(w: &Result<Watcher, String>, since: &str, version: &str) -> (r: String)
    ensures
        r@ == description(*w, since@, version@),
{
    match w {
        Ok(Watcher::Watched(Some(record))) => {
            let mut line = "watched ".to_owned();
            if record.background {
                line.push_str("in the background");
            } else {
                line.push_str("by dispatch serve");
            }
            line.push_str(" since ");
            line.push_str(since);
            line.push_str(" (pid ");
            line.push_str(decimal_of(record.identity.pid as u64).as_str());
            line.push_str(")");
            if !same(record.dispatch_version.as_str(), version) {
                line.push_str("; it runs Dispatch ");
                line.push_str(record.dispatch_version.as_str());
                line.push_str(", this is ");
                line.push_str(version);
                line.push_str(": dispatch stop && dispatch start");
            }
            assert(line@ =~= description(*w, since@, version@));
            line
        },
        Ok(Watcher::Watched(None)) => "watched by a Dispatch process that left no record".to_owned(),
        Ok(Watcher::NotWatched) => "not watched · dispatch start".to_owned(),
        Err(e) => {
            let mut line = "watching unknown: ".to_owned();
            line.push_str(e.as_str());
            line
        },
    }
}

/// The arguments of the process that watches in the background, `verbose` times more talkative.
pub open spec fn owner_arguments(state: Seq<char>, root: Seq<char>, verbose: nat) -> Seq<Seq<char>> {
    seq!["--state-dir"@, state] + Seq::new(verbose, |i: int| "-v"@) + seq![
        "serve"@,
        "--background"@,
        "--root"@,
        root,
    ]
}

/// The arguments of the process that watches in the background.
pub fn start_arguments(state: &str, root: &str, verbose: u8) -> (r: Vec<String>)
    ensures
        texts(r@) == owner_arguments(state@, root@, verbose as nat),
{
    let mut out: Vec<String> = Vec::new();
    out.push("--state-dir".to_owned());
    out.push(state.to_owned());
    let mut i: u8 = 0;
    while i < verbose
        invariant
            i <= verbose,
            out@.len() == 2 + i,
            out@[0]@ == "--state-dir"@,
            out@[1]@ == state@,
            forall|k: int| 2 <= k < 2 + i ==> (#[trigger] out@[k])@ == "-v"@,
        decreases verbose - i,
    {
        out.push("-v".to_owned());
        i += 1;
    }
    out.push("serve".to_owned());
    out.push("--background".to_owned());
    out.push("--root".to_owned());
    out.push(root.to_owned());
    assert(texts(out@) =~= owner_arguments(state@, root@, verbose as nat));
    out
}

/// The last `n` of a sequence.
pub open spec fn last_of(parts: Seq<Seq<char>>, n: int) -> Seq<Seq<char>> {
    if parts.len() <= n {
        parts
    } else {
        parts.skip(parts.len() - n)
    }
}

/// The last lines of a log.
pub fn log_tail(log: &str) -> (r: String)
    ensures
        r@ == joined_lines(last_of(lines(log@), 5)),
{
    let all = split_lines(log);
    let n = all.len();
    let from: usize = if n <= 5 {
        0
    } else {
        n - 5
    };
    let ghost tail = last_of(lines(log@), 5);
    assert(tail =~= texts(all@).skip(from as int));
    let mut out = String::new();
    let mut i: usize = from;
    assert(tail.take(0) =~= Seq::empty());
    while i < n
        invariant
            from <= i <= n == all@.len(),
            tail == texts(all@).skip(from as int),
            out@ == joined_lines(tail.take(i - from)),
        decreases n - i,
    {
        assert(tail.take(i - from + 1).drop_last() =~= tail.take(i - from));
        assert(tail.take(i - from + 1).last() == all@[i as int]@);
        if i > from {
            out.push_str("\n");
        }
        out.push_str(all[i].as_str());
        assert(out@ =~= joined_lines(tail.take(i - from + 1)));
        i += 1;
    }
    assert(tail.take(n - from) =~= tail);
    out
}

/// What is seen while a background watcher is started.
#[derive(Debug, Clone, PartialEq, Eq)]
pub struct StartFacts {
    /// The record of the root, and the state of the process that it names.
    pub record: Option<(WatcherRecord, IdentityState)>,
    /// The process that was started.
    pub child: u32,
    pub exited: bool,
    /// Who watches the root, with one line on it.
    pub watched: bool,
    pub recorded: bool,
    pub description: String,
    pub log: String,
    pub log_path: String,
    pub expired: bool,
}

/// What a start does next.
#[derive(Debug, Clone, PartialEq, Eq)]
pub enum StartStep {
    /// It is done, and says this.
    Done(String),
    /// It failed with this message.
    Failed(String),
    /// It waits and looks again.
    Wait,
}

/// What a start does next, as a value.
pub ghost enum NextStart {
    Done(Seq<char>),
    Failed(Seq<char>),
    Wait,
}

/// Whether the started process watches: its record names it, and it is exactly that live process.
pub open spec fn is_up(facts: StartFacts) -> bool {
    facts.record matches Some((w, state)) && w.identity.pid == facts.child && state
        == IdentityState::ExactLive
}

/// What a start does next.
pub open spec fn next_start(root: Seq<char>, facts: StartFacts) -> NextStart {
    if is_up(facts) {
        NextStart::Done(
            "✓ Watching "@ + root
                + "\n  Dispatch is running in the background. See it: dispatch watch · Stop: dispatch stop"@,
        )
    } else if facts.exited {
        if facts.watched && facts.recorded {
            NextStart::Done("Already watching "@ + root + ": "@ + facts.description@)
        } else {
            NextStart::Failed(
                "Dispatch could not start watching "@ + root + ":\n"@ + joined_lines(
                    last_of(lines(facts.log@), 5),
                ),
            )
        }
    } else if facts.expired {
        NextStart::Failed(
            "the background owner for "@ + root + " did not become ready in 10 s; see "@
                + facts.log_path@,
        )
    } else {
        NextStart::Wait
    }
}

/// Decides what the start of a background watcher does next. Another start may have won the race for the
/// root.
pub fn start(root: &str, facts: &StartFacts) -> (r: StartStep)
    ensures
        match next_start(root@, *facts) {
            NextStart::Done(text) => r matches StartStep::Done(t) && t@ == text,
            NextStart::Failed(text) => r matches StartStep::Failed(t) && t@ == text,
            NextStart::Wait => r is Wait,
        },
{
    let up = match &facts.record {
        Some((w, state)) => w.identity.pid == facts.child && *state == IdentityState::ExactLive,
        None => false,
    };
    if up {
        let mut text = "✓ Watching ".to_owned();
        text.push_str(root);
        text.push_str(
            "\n  Dispatch is running in the background. See it: dispatch watch · Stop: dispatch stop",
        );
        return StartStep::Done(text);
    }
    if facts.exited {
        if facts.watched && facts.recorded {
            let mut text = "Already watching ".to_owned();
            text.push_str(root);
            text.push_str(": ");
            text.push_str(facts.description.as_str());
            return StartStep::Done(text);
        }
        let mut text = "Dispatch could not start watching ".to_owned();
        text.push_str(root);
        text.push_str(":\n");
        let tail = log_tail(facts.log.as_str());
        text.push_str(tail.as_str());
        return StartStep::Failed(text);
    }
    if facts.expired {
        let mut text = "the background owner for ".to_owned();
        text.push_str(root);
        text.push_str(" did not become ready in 10 s; see ");
        text.push_str(facts.log_path.as_str());
        return StartStep::Failed(text);
    }
    StartStep::Wait
}

/// What a stop does.
#[derive(Debug, Clone, PartialEq, Eq)]
pub enum StopStep {
    /// Nothing watches: a left record is removed, and this is said.
    NotWatched(String),
    /// Nothing is signalled, for this reason.
    Refused(String),
    /// The process is asked to stop.
    Signal(i32),
}

/// What a stop does, as a value.
pub ghost enum NextStop {
    NotWatched(Seq<char>),
    Refused(Seq<char>),
    Signal(int),
}

/// What a stop does. `state` is that of the process that the record names.
pub open spec fn next_stop(
    root: Seq<char>,
    w: Watcher,
    state: IdentityState,
    lock: Seq<char>,
) -> NextStop {
    match w {
        Watcher::NotWatched => NextStop::NotWatched("Not watching "@ + root + "."@),
        Watcher::Watched(record) => match record {
            Some(found) => if state != IdentityState::ExactLive {
                NextStop::Refused(unidentified(root, lock))
            } else if found.identity.pid > i32::MAX {
                NextStop::Refused("watcher pid out of range"@)
            } else {
                NextStop::Signal(found.identity.pid as int)
            },
            None => NextStop::Refused(unidentified(root, lock)),
        },
    }
}

/// What is said of a watcher that cannot be identified.
pub open spec fn unidentified(root: Seq<char>, lock: Seq<char>) -> Seq<char> {
    root
        + " is watched, but not by a process Dispatch can identify, so nothing was signalled. The watching process holds "@
        + lock + "."@
}

fn refuse_stop(root: &str, lock: &str) -> (r: String)
    ensures
        r@ == unidentified(root@, lock@),
{
    let mut text = root.to_owned();
    text.push_str(
        " is watched, but not by a process Dispatch can identify, so nothing was signalled. The watching process holds ",
    );
    text.push_str(lock);
    text.push_str(".");
    text
}

/// Decides whom a stop signals: exactly the live process that the record names, and only while the lock
/// is held.
pub fn stop(root: &str, w: &Watcher, state: IdentityState, lock: &str) -> (r: StopStep)
    ensures
        match next_stop(root@, *w, state, lock@) {
            NextStop::NotWatched(text) => r matches StopStep::NotWatched(t) && t@ == text,
            NextStop::Refused(text) => r matches StopStep::Refused(t) && t@ == text,
            NextStop::Signal(pid) => r matches StopStep::Signal(p) && p == pid,
        },
{
    match w {
        Watcher::NotWatched => {
            let mut text = "Not watching ".to_owned();
            text.push_str(root);
            text.push_str(".");
            StopStep::NotWatched(text)
        },
        Watcher::Watched(record) => match record {
            Some(found) => {
                if state != IdentityState::ExactLive {
                    StopStep::Refused(refuse_stop(root, lock))
                } else if found.identity.pid > 0x7fff_ffff {
                    StopStep::Refused("watcher pid out of range".to_owned())
                } else {
                    StopStep::Signal(found.identity.pid as i32)
                }
            },
            None => StopStep::Refused(refuse_stop(root, lock)),
        },
    }
}

/// Only the exact live process that a record names is ever signalled.
pub proof fn only_the_recorded_process_is_signalled(
    root: Seq<char>,
    w: Watcher,
    state: IdentityState,
    lock: Seq<char>,
)
    requires
        next_stop(root, w, state, lock) is Signal,
    ensures
        state == IdentityState::ExactLive,
        w matches Watcher::Watched(Some(record)) && next_stop(root, w, state, lock)
            == NextStop::Signal(record.identity.pid as int),
{
}

/// What the wait for a stopped watcher says: that it stopped, or that it did not in time; nothing while
/// it still may.
pub fn stopped(root: &str, pid: i32, watched: bool, expired: bool) -> (r: Option<Result<String, String>>)
    requires
        pid >= 0,
    ensures
        if !watched {
            r matches Some(Ok(text)) && text@ == "✓ Dispatch stopped watching "@ + root@ + "."@
        } else if expired {
            r matches Some(Err(text)) && text@ == "the watcher for "@ + root@ + " (pid "@ + decimal(
                pid as nat,
            ) + ") did not stop within 10 s"@
        } else {
            r is None
        },
{
    if !watched {
        let mut text = "✓ Dispatch stopped watching ".to_owned();
        text.push_str(root);
        text.push_str(".");
        Some(Ok(text))
    } else if expired {
        let mut text = "the watcher for ".to_owned();
        text.push_str(root);
        text.push_str(" (pid ");
        text.push_str(decimal_of(pid as u64).as_str());
        text.push_str(") did not stop within 10 s");
        Some(Err(text))
    } else {
        None
    }
}

} // verus!
