//! The hooks of one runtime as [`RuntimeEvent`]s, and the reply that it shows the person. Everything
//! specific to it ends here.

use vstd::prelude::*;

use crate::runtime::{EventKind, Reply, RuntimeEvent, MAX_INPUT_BYTES};

use crate::text::{decimal, decimal_of, same};
use crate::digest::{json_string, json_string_of};

verus! {

/// What a hook says, as far as it is read.
#[derive(Debug, Clone, PartialEq, Eq)]
pub struct Input {
    pub hook_event_name: String,
    pub session_id: String,
    pub cwd: String,
    pub source: Option<String>,
    pub reason: Option<String>,
    /// The name of the model, which is reported as a text or as an object with an identifier.
    pub model: Option<String>,
}

/// Refuses input that is larger than what is read.
pub fn check_size(bytes: usize) -> (r: Result<(), String>)
    ensures
        if bytes > MAX_INPUT_BYTES {
            r matches Err(e) && e@ == "hook input is larger than "@ + decimal(MAX_INPUT_BYTES as nat)
                + " bytes"@
        } else {
            r is Ok
        },
{
    if bytes > MAX_INPUT_BYTES {
        let mut text = "hook input is larger than ".to_owned();
        text.push_str(decimal_of(MAX_INPUT_BYTES as u64).as_str());
        text.push_str(" bytes");
        Err(text)
    } else {
        Ok(())
    }
}

/// Whether a session may follow edits that were made before it: anything but a new one, or a fork into a
/// workspace of its own.
pub open spec fn is_resumed(source: Seq<char>) -> bool {
    source != "startup"@ && source != "fork"@
}

/// Whether an event is the one that a hook reports.
pub open spec fn reports(event: Option<RuntimeEvent>, provider: Seq<char>, input: Input) -> bool {
    if input.hook_event_name@ == "SessionStart"@ {
        event matches Some(e) && reported(e, provider, input) && (e.kind matches EventKind::Start {
            source,
            resumed,
        } && source@ == (match input.source {
            Some(text) => text@,
            None => "startup"@,
        }) && resumed == is_resumed(source@))
    } else if input.hook_event_name@ == "SessionEnd"@ {
        event matches Some(e) && reported(e, provider, input) && (e.kind matches EventKind::End { reason }
            && reason@ == (match input.reason {
            Some(text) => text@,
            None => "other"@,
        }))
    } else {
        event is None
    }
}

/// Whether an event is that of a hook, but for what happened.
pub open spec fn reported(event: RuntimeEvent, provider: Seq<char>, input: Input) -> bool {
    &&& event.provider@ == provider
    &&& event.session_id == input.session_id
    &&& event.cwd == input.cwd
    &&& event.model == input.model
}

/// The event that a hook reports; none for one that is not used. The provider of the event is the word
/// that the program of the hooked agent goes by.
pub fn parse(claude: &str, input: Input) -> (r: Option<RuntimeEvent>)
    ensures
        reports(r, claude@, input),
{
    let kind = if same(input.hook_event_name.as_str(), "SessionStart") {
        let source = match input.source {
            Some(text) => text,
            None => "startup".to_owned(),
        };
        let resumed = !same(source.as_str(), "startup") && !same(source.as_str(), "fork");
        EventKind::Start { source, resumed }
    } else if same(input.hook_event_name.as_str(), "SessionEnd") {
        EventKind::End {
            reason: match input.reason {
                Some(text) => text,
                None => "other".to_owned(),
            },
        }
    } else {
        return None;
    };
    Some(
        RuntimeEvent {
            provider: claude.to_owned(),
            session_id: input.session_id,
            cwd: input.cwd,
            model: input.model,
            kind,
        },
    )
}

/// The message that the runtime shows.
pub open spec fn system_message(text: Seq<char>) -> Seq<char> {
    "{\"systemMessage\":"@ + json_string(text) + "}"@
}

fn write_message(text: &str) -> (r: String)
    ensures
        r@ == system_message(text@),
{
    let mut out = "{\"systemMessage\":".to_owned();
    let quoted = json_string_of(text);
    out.push_str(quoted.as_str());
    out.push_str("}");
    out
}

/// What is printed for the runtime. A hook never fails: a session is never held up, and a problem is shown.
pub fn handle(reply: &Result<Reply, String>) -> (r: String)
    ensures
        r@ == (match *reply {
            Ok(Reply::Silent) => Seq::empty(),
            Ok(Reply::Notice(text)) => system_message(text@),
            Err(error) => system_message("Dispatch could not track this session: "@ + error@),
        }),
{
    match reply {
        Ok(Reply::Silent) => String::new(),
        Ok(Reply::Notice(text)) => write_message(text.as_str()),
        Err(error) => {
            let mut text = "Dispatch could not track this session: ".to_owned();
            text.push_str(error.as_str());
            write_message(text.as_str())
        },
    }
}

} // verus!
