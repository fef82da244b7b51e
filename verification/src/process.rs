//! Process identity and liveness: a pid plus its start time and the boot it belongs to, so that a
//! recycled pid is never mistaken for the process that was recorded.

use vstd::prelude::*;

use crate::text::{
    after_last, copy_optional, last_index, optional_str, optional_view, same, trim, trimmed, words,
    words_of,
};

verus! {

/// A process as it was when it was looked at.
#[derive(Debug, Clone, PartialEq, Eq)]
pub struct ProcessIdentity {
    pub pid: u32,
    pub start: Option<String>,
    pub boot: Option<String>,
    pub process_group: Option<i32>,
}

/// What has become of a recorded process.
#[derive(Debug, Clone, Copy, PartialEq, Eq, Structural)]
pub enum IdentityState {
    ExactLive,
    Gone,
    Reused,
    Unknown,
}

impl ProcessIdentity {
    /// An exact copy.
    pub fn copied(&self) -> (r: Self)
        ensures
            r == *self,
    {
        ProcessIdentity {
            pid: self.pid,
            start: copy_optional(&self.start),
            boot: copy_optional(&self.boot),
            process_group: self.process_group,
        }
    }
}

/// The start time in a process's status line: the twentieth word after the last `)`.
pub open spec fn start_in(stat: Seq<char>) -> Option<Seq<char>> {
    let end = last_index(stat, ')');
    if end < 0 {
        None
    } else {
        let fields = words(stat.skip(end + 1));
        if fields.len() > 19 {
            Some(fields[19])
        } else {
            None
        }
    }
}

/// The start time in a process's status line, if it has one.
pub fn process_start(stat: &str) -> (r: Option<String>)
    ensures
        optional_view(r) == start_in(stat@),
{
    match after_last(stat, ')') {
        Some(tail) => {
            let fields = words_of(tail.as_str());
            if fields.len() > 19 {
                Some(fields[19].clone())
            } else {
                None
            }
        },
        None => None,
    }
}

/// The identity of a process from its status line and the boot identifier, where they could be
/// read.
pub fn process_identity(pid: u32, stat: Option<&str>, boot: Option<&str>) -> (r: ProcessIdentity)
    ensures
        r.pid == pid,
        optional_view(r.start) == (match optional_str(stat) {
            Some(line) => start_in(line),
            None => None,
        }),
        optional_view(r.boot) == (match optional_str(boot) {
            Some(text) => Some(trim(text)),
            None => None,
        }),
        r.process_group == (if pid <= i32::MAX {
            Some(pid as i32)
        } else {
            None
        }),
{
    let start = match stat {
        Some(line) => process_start(line),
        None => None,
    };
    let boot = match boot {
        Some(text) => Some(trimmed(text)),
        None => None,
    };
    let process_group = if pid <= 0x7fff_ffff {
        Some(pid as i32)
    } else {
        None
    };
    ProcessIdentity { pid, start, boot, process_group }
}

/// What has become of `expected`, given whether its pid exists and what runs under it now.
pub open spec fn identity_now(
    expected: ProcessIdentity,
    exists: bool,
    current: ProcessIdentity,
) -> IdentityState {
    if !exists {
        IdentityState::Gone
    } else if expected.start is None || expected.boot is None || current.start is None
        || current.boot is None {
        IdentityState::Unknown
    } else if optional_view(expected.start) == optional_view(current.start) && optional_view(
        expected.boot,
    ) == optional_view(current.boot) {
        IdentityState::ExactLive
    } else {
        IdentityState::Reused
    }
}

/// What has become of `expected`, given whether its pid exists and what runs under it now.
pub fn identity_state(
    expected: &ProcessIdentity,
    exists: bool,
    current: &ProcessIdentity,
) -> (r: IdentityState)
    ensures
        r == identity_now(*expected, exists, *current),
{
    if !exists {
        return IdentityState::Gone;
    }
    match (&expected.start, &expected.boot, &current.start, &current.boot) {
        (Some(a), Some(b), Some(c), Some(d)) => {
            if same(a.as_str(), c.as_str()) && same(b.as_str(), d.as_str()) {
                IdentityState::ExactLive
            } else {
                IdentityState::Reused
            }
        },
        _ => IdentityState::Unknown,
    }
}

/// A process that was fully observed is exactly live when it is looked at again unchanged.
pub proof fn unchanged_process_is_exactly_live(identity: ProcessIdentity)
    requires
        identity.start is Some,
        identity.boot is Some,
    ensures
        identity_now(identity, true, identity) == IdentityState::ExactLive,
{
}

/// A pid that now belongs to a process with another start time is never taken for the recorded
/// one.
pub proof fn recycled_pid_is_never_exactly_live(
    expected: ProcessIdentity,
    exists: bool,
    current: ProcessIdentity,
)
    requires
        optional_view(expected.start) != optional_view(current.start),
    ensures
        identity_now(expected, exists, current) != IdentityState::ExactLive,
{
}

} // verus!
