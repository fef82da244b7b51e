//! Agent runtimes that report their sessions, so that work appears without anyone attaching it.
//!
//! An adapter turns what its runtime says into a [`RuntimeEvent`]; [`ingest`] is the same for every
//! provider. The work is the workspace, never a session: sessions come and go in it and are recorded as
//! its actors. What a runtime says is untrusted. It never chooses the integration root, and acts only in a
//! project that someone chose to watch.

pub mod claude;

use vstd::prelude::*;
use vstd::utf8::*;

use crate::planning::{file_name, file_name_of};

use crate::text::{
    all_word, byte_len, bytes_in, chars_of, fit, fitting, only_word, optional_str, optional_view,
    same,
};
use crate::digest::{hash_text, text_hash};
use crate::orchestrator::attach::{AttachRequest, RuntimeSession, RuntimeStart, Start};

verus! {

/// The most bytes that are read of what a runtime says.
pub const MAX_INPUT_BYTES: usize = 65_536;

/// One event in the life of a runtime's session.
#[derive(Debug, Clone, PartialEq, Eq)]
pub struct RuntimeEvent {
    pub provider: String,
    pub session_id: String,
    pub cwd: String,
    pub model: Option<String>,
    pub kind: EventKind,
}

/// What happened.
#[derive(Debug, Clone, PartialEq, Eq)]
pub enum EventKind {
    /// A session began; `source` is the runtime's own word for how.
    Start { source: String, resumed: bool },
    /// A session ended.
    End { reason: String },
    /// The runtime is about to delete the workspace that it works in.
    WorkspaceRemoved,
}

/// What the runtime is told.
#[derive(Debug, Clone, PartialEq, Eq)]
pub enum Reply {
    Silent,
    /// Shown to the person in the agent's session.
    Notice(String),
}

/// The word that an event carries.
pub open spec fn event_word(kind: EventKind) -> Seq<char> {
    match kind {
        EventKind::Start { source, .. } => source@,
        EventKind::End { reason } => reason@,
        EventKind::WorkspaceRemoved => "removed"@,
    }
}

/// Whether every character is a small ASCII letter or an underscore.
pub open spec fn is_plain(s: Seq<char>) -> bool {
    forall|i: int| 0 <= i < s.len() ==> 'a' <= (#[trigger] s[i]) <= 'z' || s[i] == '_'
}

/// Whether every character is a visible ASCII character.
pub open spec fn is_graphic(s: Seq<char>) -> bool {
    forall|i: int| 0 <= i < s.len() ==> '!' <= (#[trigger] s[i]) <= '~'
}

/// Whether a path starts at the root.
pub open spec fn is_absolute(path: Seq<char>) -> bool {
    path.len() > 0 && path[0] == '/'
}

/// Why an event is refused, if it is.
pub open spec fn event_error(event: RuntimeEvent) -> Option<Seq<char>> {
    if event.session_id@.len() == 0 || byte_len(event.session_id@) > 128 || !all_word(
        event.session_id@,
    ) {
        Some("invalid session id"@)
    } else if !is_absolute(event.cwd@) || byte_len(event.cwd@) > 4096 {
        Some("the working directory must be an absolute path"@)
    } else if byte_len(event_word(event.kind)) > 32 || !is_plain(event_word(event.kind)) {
        Some("invalid event detail"@)
    } else if event.model is Some && (byte_len(event.model->0@) > 128 || !is_graphic(
        event.model->0@,
    )) {
        Some("invalid model"@)
    } else {
        None
    }
}

fn plain(s: &str) -> (r: bool)
    ensures
        r == is_plain(s@),
{
    let chars = chars_of(s);
    let mut i: usize = 0;
    while i < chars.len()
        invariant
            i <= chars.len(),
            chars@ == s@,
            forall|k: int| 0 <= k < i ==> 'a' <= (#[trigger] s@[k]) <= 'z' || s@[k] == '_',
        decreases chars.len() - i,
    {
        let c = chars[i];
        if !((c >= 'a' && c <= 'z') || c == '_') {
            assert(s@[i as int] == c);
            return false;
        }
        i += 1;
    }
    true
}

fn graphic(s: &str) -> (r: bool)
    ensures
        r == is_graphic(s@),
{
    let chars = chars_of(s);
    let mut i: usize = 0;
    while i < chars.len()
        invariant
            i <= chars.len(),
            chars@ == s@,
            forall|k: int| 0 <= k < i ==> '!' <= (#[trigger] s@[k]) <= '~',
        decreases chars.len() - i,
    {
        let c = chars[i];
        if !(c >= '!' && c <= '~') {
            assert(s@[i as int] == c);
            return false;
        }
        i += 1;
    }
    true
}

fn absolute(path: &str) -> (r: bool)
    ensures
        r == is_absolute(path@),
{
    let chars = chars_of(path);
    chars.len() > 0 && chars[0] == '/'
}

/// Checks the fields of an event; anything malformed is refused whole.
pub fn validate(event: &RuntimeEvent) -> (r: Result<(), String>)
    ensures
        match event_error(*event) {
            Some(message) => r matches Err(e) && e@ == message,
            None => r is Ok,
        },
{
    let id = event.session_id.as_str();
    if id.is_empty() || bytes_in(id) > 128 || !only_word(id) {
        return Err("invalid session id".to_owned());
    }
    if !absolute(event.cwd.as_str()) || bytes_in(event.cwd.as_str()) > 4096 {
        return Err("the working directory must be an absolute path".to_owned());
    }
    let word = match &event.kind {
        EventKind::Start { source, .. } => source.as_str(),
        EventKind::End { reason } => reason.as_str(),
        EventKind::WorkspaceRemoved => "removed",
    };
    if bytes_in(word) > 32 || !plain(word) {
        return Err("invalid event detail".to_owned());
    }
    if let Some(model) = &event.model {
        if bytes_in(model.as_str()) > 128 || !graphic(model.as_str()) {
            return Err("invalid model".to_owned());
        }
    }
    Ok(())
}

/// What is said to a session that works in the checkout itself.
pub open spec fn shared_checkout(claude: Seq<char>) -> Seq<char> {
    "Dispatch: this session works directly in your checkout, so Dispatch cannot tell its edits from yours and does not track them. For tracked work, start the agent in its own worktree ("@
        + claude + " --worktree) or with dispatch attach -- "@ + claude + "."@
}

/// What an event asks for.
#[derive(Debug, Clone, PartialEq, Eq)]
pub enum Ingest {
    /// Nothing but a reply.
    Reply(Reply),
    /// The changes of the workspace are kept.
    Removed,
    /// A session is recorded on the work of the workspace, which is new where there is none.
    Start(RuntimeSession, bool),
    /// A session of the workspace's work ended.
    End(String),
}

/// The session that an event starts.
pub open spec fn started(
    s: RuntimeSession,
    event: RuntimeEvent,
    source: String,
    now: i64,
) -> bool {
    &&& s.provider == event.provider
    &&& s.session_id == event.session_id
    &&& s.source == source
    &&& s.model == event.model
    &&& s.started_at == now
    &&& s.ended_at is None
    &&& s.end_reason is None
}

/// What an event asks for. `workspace` is the checkout that the event's directory lies in, `root` the main
/// worktree of its repository, `watched` whether that is watched. The agent that is
/// recommended is named by the word that its program goes by.
pub open spec fn ingests(
    r: Result<Ingest, String>,
    event: RuntimeEvent,
    workspace: Option<Seq<char>>,
    root: Option<Seq<char>>,
    watched: bool,
    claude: Seq<char>,
    now: i64,
) -> bool {
    match event_error(event) {
        Some(message) => r matches Err(e) && e@ == message,
        None => match workspace {
            None => r == Ok::<Ingest, String>(Ingest::Reply(Reply::Silent)),
            Some(place) => match event.kind {
                EventKind::WorkspaceRemoved => r == Ok::<Ingest, String>(Ingest::Removed),
                _ => match root {
                    None => r matches Err(e) && e@ == "the checkout lost its repository"@,
                    Some(main) => if !watched {
                        r == Ok::<Ingest, String>(Ingest::Reply(Reply::Silent))
                    } else {
                        match event.kind {
                            EventKind::Start { source, resumed } => if place != main {
                                r matches Ok(Ingest::Start(s, again)) && again == resumed && started(
                                    s,
                                    event,
                                    source,
                                    now,
                                )
                            } else if source@ == "startup"@ {
                                r matches Ok(Ingest::Reply(Reply::Notice(text))) && text@
                                    == shared_checkout(claude)
                            } else {
                                r == Ok::<Ingest, String>(Ingest::Reply(Reply::Silent))
                            },
                            EventKind::End { reason } => r == Ok::<Ingest, String>(
                                Ingest::End(reason),
                            ),
                            EventKind::WorkspaceRemoved => true,
                        }
                    },
                },
            },
        },
    }
}

/// Decides what an event asks for. Sessions are followed only in a watched project; a workspace that is
/// about to be deleted keeps its changes either way. Only a fresh start is known to stay in the checkout.
pub fn ingest(
    event: RuntimeEvent,
    workspace: Option<&str>,
    root: Option<&str>,
    watched: bool,
    claude: &str,
    now: i64,
) -> (r: Result<Ingest, String>)
    ensures
        ingests(r, event, optional_str(workspace), optional_str(root), watched, claude@, now),
{
    if let Err(e) = validate(&event) {
        return Err(e);
    }
    let place = match workspace {
        None => {
            return Ok(Ingest::Reply(Reply::Silent));
        },
        Some(place) => place,
    };
    let removed = match &event.kind {
        EventKind::WorkspaceRemoved => true,
        _ => false,
    };
    if removed {
        return Ok(Ingest::Removed);
    }
    let main = match root {
        None => {
            return Err("the checkout lost its repository".to_owned());
        },
        Some(main) => main,
    };
    if !watched {
        return Ok(Ingest::Reply(Reply::Silent));
    }
    match event.kind {
        EventKind::Start { source, resumed } => {
            if !same(place, main) {
                Ok(
                    Ingest::Start(
                        RuntimeSession {
                            provider: event.provider,
                            session_id: event.session_id,
                            source,
                            model: event.model,
                            started_at: now,
                            ended_at: None,
                            end_reason: None,
                        },
                        resumed,
                    ),
                )
            } else if same(source.as_str(), "startup") {
                let mut text = "Dispatch: this session works directly in your checkout, so Dispatch cannot tell its edits from yours and does not track them. For tracked work, start the agent in its own worktree (".to_owned();
                text.push_str(claude);
                text.push_str(" --worktree) or with dispatch attach -- ");
                text.push_str(claude);
                text.push_str(".");
                Ok(Ingest::Reply(Reply::Notice(text)))
            } else {
                Ok(Ingest::Reply(Reply::Silent))
            }
        },
        EventKind::End { reason } => Ok(Ingest::End(reason)),
        EventKind::WorkspaceRemoved => Ok(Ingest::Removed),
    }
}

/// An event never makes the checkout itself the workspace of work, and starts none where nobody watches.
pub proof fn work_starts_only_in_watched_worktrees(
    r: Result<Ingest, String>,
    event: RuntimeEvent,
    workspace: Option<Seq<char>>,
    root: Option<Seq<char>>,
    watched: bool,
    claude: Seq<char>,
    now: i64,
)
    requires
        ingests(r, event, workspace, root, watched, claude, now),
        r matches Ok(Ingest::Start(_, _)),
    ensures
        watched,
        workspace is Some,
        root is Some,
        workspace != root,
        event_error(event) is None,
{
}

/// A workspace that is about to be deleted is kept whether or not its project is still watched.
pub proof fn removals_are_always_kept(
    r: Result<Ingest, String>,
    event: RuntimeEvent,
    workspace: Option<Seq<char>>,
    root: Option<Seq<char>>,
    watched: bool,
    claude: Seq<char>,
    now: i64,
)
    requires
        ingests(r, event, workspace, root, watched, claude, now),
        event_error(event) is None,
        event.kind is WorkspaceRemoved,
        workspace is Some,
    ensures
        r == Ok::<Ingest, String>(Ingest::Removed),
{
}

/// What is said once the changes of a workspace are kept.
pub fn removal_notice(run_id: &str, files_changed: u64) -> (r: String)
    ensures
        r@ == (if files_changed == 0 {
            "Dispatch closed Work "@ + fitting(run_id@, 8) + ": the worktree held no changes."@
        } else {
            "Dispatch kept this worktree's changes as Work "@ + fitting(run_id@, 8)
                + "; finish or reject it: dispatch finish "@ + fitting(run_id@, 8)
                + " or dispatch reject "@ + fitting(run_id@, 8) + "."@
        }),
{
    let id = fit(run_id, 8);
    if files_changed == 0 {
        let mut text = "Dispatch closed Work ".to_owned();
        text.push_str(id.as_str());
        text.push_str(": the worktree held no changes.");
        text
    } else {
        let mut text = "Dispatch kept this worktree's changes as Work ".to_owned();
        text.push_str(id.as_str());
        text.push_str("; finish or reject it: dispatch finish ");
        text.push_str(id.as_str());
        text.push_str(" or dispatch reject ");
        text.push_str(id.as_str());
        text.push_str(".");
        text
    }
}

/// The name of the lock under which a workspace is registered, so that concurrent starts land on one work.
pub fn workspace_lock(workspace: &str) -> (r: String)
    ensures
        r@ == "workspace-"@ + hash_text(encode_utf8(workspace@)) + ".lock"@,
{
    let mut name = "workspace-".to_owned();
    let hash = text_hash(workspace);
    name.push_str(hash.as_str());
    name.push_str(".lock");
    name
}

/// The request that registers a session's workspace as new work: nothing is run, checked or applied on its
/// account.
pub open spec fn registers(
    q: AttachRequest,
    root: Seq<char>,
    workspace: Seq<char>,
    session: RuntimeSession,
    resumed: bool,
) -> bool {
    &&& q.workspace@ == workspace
    &&& optional_view(q.root) == Some(root)
    &&& optional_view(q.task) == Some(
        session.provider@ + " session in "@ + (match file_name(workspace) {
            Some(name) => name,
            None => Seq::empty(),
        }),
    )
    &&& q.agent == Some(session.provider)
    &&& q.pid is None
    &&& q.command is None
    &&& !q.allow_unsafe_local
    &&& !q.auto_apply
    &&& q.runtime == Some(RuntimeStart { session, resumed })
}

/// The request that registers a session's workspace as new work.
pub fn start(root: &str, workspace: &str, session: RuntimeSession, resumed: bool) -> (r: AttachRequest)
    ensures
        registers(r, root@, workspace@, session, resumed),
{
    let mut task = session.provider.clone();
    task.push_str(" session in ");
    if let Some(name) = file_name_of(workspace) {
        task.push_str(name.as_str());
    }
    assert(task@ =~= session.provider@ + " session in "@ + (match file_name(workspace@) {
        Some(name) => name,
        None => Seq::empty(),
    }));
    let provider = session.provider.clone();
    AttachRequest {
        workspace: workspace.to_owned(),
        root: Some(root.to_owned()),
        task: Some(task),
        agent: Some(provider),
        pid: None,
        command: None,
        allow_unsafe_local: false,
        auto_apply: false,
        runtime: Some(RuntimeStart { session, resumed }),
    }
}

/// What is said once a workspace is registered.
pub fn tracking_notice(run_id: &str) -> (r: String)
    ensures
        r@ == "Dispatch is tracking this worktree as Work "@ + fitting(run_id@, 8)
            + "; see it with dispatch watch."@,
{
    let mut text = "Dispatch is tracking this worktree as Work ".to_owned();
    let id = fit(run_id, 8);
    text.push_str(id.as_str());
    text.push_str("; see it with dispatch watch.");
    text
}

/// Work that a runtime registers carries no authority: it neither runs checks nor is applied without a
/// person.
pub proof fn registered_work_has_no_authority(
    q: AttachRequest,
    root: Seq<char>,
    workspace: Seq<char>,
    session: RuntimeSession,
    resumed: bool,
)
    requires
        registers(q, root, workspace, session, resumed),
    ensures
        !q.allow_unsafe_local,
        !q.auto_apply,
        q.command is None,
{
}

} // verus!
