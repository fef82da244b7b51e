//! What a person sees of a run, and what they may do with it. Presentation only: committed outcomes
//! remain the authority over execution.

use vstd::prelude::*;

pub mod editor;
pub mod inspection;
pub mod lines;
pub mod session;
pub mod setup;
pub mod theme;

use crate::orchestrator::native::{waiting_question, QuestionCommand};

use crate::text::{
    begins_with, chars_of, decimal, decimal_of, has_prefix, is_control, join_by, join_lines,
    joined_by, joined_lines, part, put, replace_text, replaced, same, texts, trim, trimmed,
    turns_direction,
};
use crate::record::{
    ApplicationState, AppliedBy, AttemptRecord, CandidateRecord, Clarification, Decision, DiffStats,
    FailureKind, LifecycleState, QuestionState, ReviewState, RunMode, RunOutcome, RunPhase,
    RunRecord, Validity, VerificationState, WaitingOn, WorkResult, behind,
};
use crate::orchestrator::attach::OwnerState;

verus! {

/// The most bytes of one input.
pub const INPUT_LIMIT: usize = 16_384;

/// How things are presented.
#[derive(Debug, Clone, Copy, PartialEq, Eq, Structural)]
pub struct Options {
    pub plain: bool,
    pub ascii: bool,
    pub no_color: bool,
}

/// What is presented of an event: its type, and the reason or the error that it tells.
#[derive(Debug, Clone, PartialEq, Eq)]
pub struct EventRecord {
    pub event_type: String,
    pub reason: Option<String>,
}

/// Whether a character introduces a control string.
pub open spec fn introduces(c: char) -> bool {
    c == '\u{1b}' || c == '\u{9b}' || c == '\u{9d}' || c == '\u{90}'
}

/// Whether a character is shown: anything but controls and what turns the direction of text; line ends
/// and tabs are shown.
pub open spec fn is_shown(c: char) -> bool {
    c == '\n' || c == '\t' || !is_control(c) && !turns_direction(c)
}

/// Where a control sequence ends that has begun before `i`: behind its final character.
pub open spec fn sequence_end(s: Seq<char>, i: int) -> int
    decreases s.len() - i,
{
    if i < 0 || i >= s.len() {
        s.len() as int
    } else if '@' <= s[i] <= '~' {
        i + 1
    } else {
        sequence_end(s, i + 1)
    }
}

/// Where a control string ends that has begun before `i`: behind its terminator.
pub open spec fn string_end(s: Seq<char>, i: int) -> int
    decreases s.len() - i,
{
    if i < 0 || i >= s.len() {
        s.len() as int
    } else if s[i] == '\u{7}' || s[i] == '\u{9c}' {
        i + 1
    } else if s[i] == '\u{1b}' && i + 1 < s.len() && s[i + 1] == '\\' {
        i + 2
    } else {
        string_end(s, i + 1)
    }
}

/// Where the control string ends that begins with a text.
pub open spec fn control_end(s: Seq<char>) -> int {
    let kind = if s[0] == '\u{1b}' {
        if s.len() > 1 {
            Some(s[1])
        } else {
            None
        }
    } else if s[0] == '\u{9b}' {
        Some('[')
    } else if s[0] == '\u{9d}' {
        Some(']')
    } else {
        Some('P')
    };
    let start = if s[0] == '\u{1b}' {
        if s.len() > 1 {
            2int
        } else {
            1int
        }
    } else {
        1int
    };
    match kind {
        Some(c) => if c == '[' {
            sequence_end(s, start)
        } else if c == ']' || c == 'P' || c == '_' || c == '^' || c == 'X' {
            string_end(s, start)
        } else {
            start
        },
        None => start,
    }
}

/// Every end of a control string lies within the text.
pub proof fn ends_lie_within(s: Seq<char>, i: int)
    requires
        0 <= i <= s.len(),
    ensures
        i <= sequence_end(s, i) <= s.len(),
        i <= string_end(s, i) <= s.len(),
    decreases s.len() - i,
{
    if i < s.len() {
        ends_lie_within(s, i + 1);
    }
}

/// A text without control strings and without what could control the terminal.
pub open spec fn cleaned(s: Seq<char>) -> Seq<char>
    decreases s.len(),
{
    if s.len() == 0 {
        s
    } else if introduces(s[0]) {
        proof {
            ends_lie_within(s, 1);
            if s.len() > 1 {
                ends_lie_within(s, 2);
            }
        }
        cleaned(s.skip(control_end(s)))
    } else if is_shown(s[0]) {
        seq![s[0]] + cleaned(s.drop_first())
    } else {
        cleaned(s.drop_first())
    }
}

fn find_sequence_end(s: &Vec<char>, from: usize, Ghost(rest): Ghost<Seq<char>>, Ghost(base): Ghost<
    int,
>) -> (r: usize)
    requires
        0 <= base <= from <= s@.len(),
        rest == s@.skip(base),
    ensures
        r == base + sequence_end(rest, from - base),
        from <= r <= s@.len(),
{
    let mut i: usize = from;
    while i < s.len()
        invariant
            0 <= base <= from <= i <= s@.len(),
            rest == s@.skip(base),
            sequence_end(rest, from - base) == sequence_end(rest, i - base),
        decreases s@.len() - i,
    {
        assert(rest[i - base] == s@[i as int]);
        if s[i] >= '@' && s[i] <= '~' {
            return i + 1;
        }
        i += 1;
    }
    i
}

fn find_string_end(s: &Vec<char>, from: usize, Ghost(rest): Ghost<Seq<char>>, Ghost(base): Ghost<
    int,
>) -> (r: usize)
    requires
        0 <= base <= from <= s@.len(),
        rest == s@.skip(base),
    ensures
        r == base + string_end(rest, from - base),
        from <= r <= s@.len(),
{
    let mut i: usize = from;
    while i < s.len()
        invariant
            0 <= base <= from <= i <= s@.len(),
            rest == s@.skip(base),
            string_end(rest, from - base) == string_end(rest, i - base),
        decreases s@.len() - i,
    {
        assert(rest[i - base] == s@[i as int]);
        if i + 1 < s.len() {
            assert(rest[i + 1 - base] == s@[i + 1]);
        }
        if s[i] == '\u{7}' || s[i] == '\u{9c}' {
            return i + 1;
        }
        if s[i] == '\u{1b}' && i + 1 < s.len() && s[i + 1] == '\\' {
            return i + 2;
        }
        i += 1;
    }
    i
}

fn shown(c: char) -> (r: bool)
    ensures
        r == is_shown(c),
{
    let n: u32 = c as u32;
    c == '\n' || c == '\t' || (!(n <= 0x1f || (0x7f <= n && n <= 0x9f)) && !((0x202a <= n && n
        <= 0x202e) || (0x2066 <= n && n <= 0x2069)))
}

/// Strips what could control the terminal: control strings as units, other controls, and what turns the
/// direction of text. Line ends and tabs stay.
pub fn sanitize(text: &str) -> (r: String)
    ensures
        r@ == cleaned(text@),
{
    let chars = chars_of(text);
    let mut out = String::new();
    let mut i: usize = 0;
    assert(chars@.skip(0) =~= text@);
    assert(out@ + cleaned(text@) =~= cleaned(text@));
    while i < chars.len()
        invariant
            i <= chars@.len(),
            chars@ == text@,
            cleaned(text@) == out@ + cleaned(chars@.skip(i as int)),
        decreases chars@.len() - i,
    {
        let ghost rest = chars@.skip(i as int);
        let c = chars[i];
        assert(rest[0] == c);
        if c == '\u{1b}' || c == '\u{9b}' || c == '\u{9d}' || c == '\u{90}' {
            let mut start: usize = i + 1;
            let mut kind: char = 'P';
            let mut known = true;
            if c == '\u{1b}' {
                if start < chars.len() {
                    kind = chars[start];
                    assert(rest[1] == kind);
                    start = start + 1;
                } else {
                    known = false;
                }
            } else if c == '\u{9b}' {
                kind = '[';
            } else if c == '\u{9d}' {
                kind = ']';
            }
            let mut end: usize = start;
            if known {
                if kind == '[' {
                    end = find_sequence_end(&chars, start, Ghost(rest), Ghost(i as int));
                } else if kind == ']' || kind == 'P' || kind == '_' || kind == '^' || kind == 'X' {
                    end = find_string_end(&chars, start, Ghost(rest), Ghost(i as int));
                }
            }
            assert(end == i + control_end(rest));
            assert(rest.skip(control_end(rest)) =~= chars@.skip(end as int));
            i = end;
        } else {
            assert(rest.drop_first() =~= chars@.skip(i as int + 1));
            if shown(c) {
                out.push(c);
                assert(out@ + cleaned(chars@.skip(i as int + 1)) =~= cleaned(text@));
            }
            i += 1;
        }
    }
    assert(chars@.skip(chars@.len() as int) =~= Seq::<char>::empty());
    out
}

/// Whether every character of a text is shown.
pub open spec fn all_shown(s: Seq<char>) -> bool {
    forall|i: int| 0 <= i < s.len() ==> is_shown(#[trigger] s[i])
}

/// A sanitized text cannot control the terminal: every character of it is shown.
pub proof fn sanitized_text_cannot_control_the_terminal(s: Seq<char>)
    ensures
        all_shown(cleaned(s)),
    decreases s.len(),
{
    if s.len() > 0 {
        if introduces(s[0]) {
            ends_lie_within(s, 1);
            if s.len() > 1 {
                ends_lie_within(s, 2);
            }
            sanitized_text_cannot_control_the_terminal(s.skip(control_end(s)));
        } else {
            sanitized_text_cannot_control_the_terminal(s.drop_first());
        }
    }
}

/// Plain text is not changed by sanitizing.
pub proof fn plain_text_is_not_changed(s: Seq<char>)
    requires
        all_shown(s),
    ensures
        cleaned(s) == s,
    decreases s.len(),
{
    if s.len() > 0 {
        assert(is_shown(s[0]));
        assert(!introduces(s[0]));
        let rest = s.drop_first();
        assert forall|i: int| 0 <= i < rest.len() implies is_shown(#[trigger] rest[i]) by {
            assert(rest[i] == s[i + 1]);
        }
        plain_text_is_not_changed(rest);
        assert(seq![s[0]] + rest =~= s);
    }
}

/// Sanitizing twice is sanitizing once.
pub proof fn sanitizing_is_idempotent(s: Seq<char>)
    ensures
        cleaned(cleaned(s)) == cleaned(s),
{
    sanitized_text_cannot_control_the_terminal(s);
    plain_text_is_not_changed(cleaned(s));
}

/// The state of a run in a few words.
pub open spec fn label_text(run: RunRecord, event: Option<EventRecord>) -> Seq<char> {
    let o = run.outcome;
    let gone = run.attachment matches Some(a) && a.owner_state == OwnerState::Gone;
    if run.mode == RunMode::Attached && gone && o.lifecycle != LifecycleState::Finished {
        "Attached agent's owner is gone; finish or reject"@
    } else if run.mode == RunMode::Attached && o.lifecycle == LifecycleState::Working {
        "Attached agent working"@
    } else if o.application == ApplicationState::BlockedBySourceDrift {
        "Application blocked: source changed"@
    } else if o.application == ApplicationState::Failed {
        "Application failed"@
    } else if o.application == ApplicationState::Applied && o.applied_by == Some(AppliedBy::AutoApply) {
        match o.review {
            ReviewState::Accepted => "Auto-applied; reviewed: accepted"@,
            ReviewState::Rejected => "Auto-applied; reviewed: rejected"@,
            _ => "Auto-applied; review pending"@,
        }
    } else if o.application == ApplicationState::Applied {
        "Accepted and applied"@
    } else if o.review == ReviewState::Rejected {
        "Rejected"@
    } else if o.review == ReviewState::Accepted {
        "Accepted; not applied"@
    } else if o.waiting_on == WaitingOn::Human {
        "Waiting for you"@
    } else if o.waiting_on == WaitingOn::Capacity {
        "Waiting for subscription capacity"@
    } else if o.waiting_on == WaitingOn::Admission {
        "Waiting for shared admission"@
    } else if o.waiting_on == WaitingOn::Reconciliation {
        "Waiting for process reconciliation"@
    } else if o.waiting_on == WaitingOn::Authorization {
        "Waiting for authorization"@
    } else if o.work_result == WorkResult::Interrupted {
        "Interrupted"@
    } else if o.work_result == WorkResult::Cancelled {
        "Cancelled"@
    } else if o.work_result == WorkResult::Failed {
        "Failed"@
    } else if o.work_result == WorkResult::Deferred {
        "Deferred"@
    } else if o.work_result == WorkResult::Ready {
        "Ready for review"@
    } else if event matches Some(e) && e.event_type@ == "recovery.selected"@ {
        "Recovering once after failed verification"@
    } else {
        match o.phase {
            RunPhase::Verifying => "Verifying"@,
            RunPhase::Executing => "Working"@,
            RunPhase::Preparing => "Preparing"@,
            RunPhase::Planning => "Planning"@,
            RunPhase::Integrating => "Integrating"@,
            RunPhase::Reviewing => "Ready for review"@,
            RunPhase::Applying => "Applying"@,
            RunPhase::Finished => "Finished"@,
        }
    }
}

/// The state of a run in a few words.
pub fn label(run: &RunRecord, event: Option<&EventRecord>) -> (r: &'static str)
    ensures
        r@ == label_text(*run, behind(event)),
{
    let o = run.outcome;
    if run.mode == RunMode::Attached {
        let gone = match &run.attachment {
            Some(a) => a.owner_state == OwnerState::Gone,
            None => false,
        };
        if gone && o.lifecycle != LifecycleState::Finished {
            return "Attached agent's owner is gone; finish or reject";
        }
        if o.lifecycle == LifecycleState::Working {
            return "Attached agent working";
        }
    }
    if o.application == ApplicationState::BlockedBySourceDrift {
        return "Application blocked: source changed";
    }
    if o.application == ApplicationState::Failed {
        return "Application failed";
    }
    if o.application == ApplicationState::Applied {
        let by_policy = match o.applied_by {
            Some(AppliedBy::AutoApply) => true,
            _ => false,
        };
        if by_policy {
            return match o.review {
                ReviewState::Accepted => "Auto-applied; reviewed: accepted",
                ReviewState::Rejected => "Auto-applied; reviewed: rejected",
                _ => "Auto-applied; review pending",
            };
        }
        return "Accepted and applied";
    }
    if o.review == ReviewState::Rejected {
        return "Rejected";
    }
    if o.review == ReviewState::Accepted {
        return "Accepted; not applied";
    }
    match o.waiting_on {
        WaitingOn::Human => {
            return "Waiting for you";
        },
        WaitingOn::Capacity => {
            return "Waiting for subscription capacity";
        },
        WaitingOn::Admission => {
            return "Waiting for shared admission";
        },
        WaitingOn::Reconciliation => {
            return "Waiting for process reconciliation";
        },
        WaitingOn::Authorization => {
            return "Waiting for authorization";
        },
        _ => {},
    }
    match o.work_result {
        WorkResult::Interrupted => {
            return "Interrupted";
        },
        WorkResult::Cancelled => {
            return "Cancelled";
        },
        WorkResult::Failed => {
            return "Failed";
        },
        WorkResult::Deferred => {
            return "Deferred";
        },
        WorkResult::Ready => {
            return "Ready for review";
        },
        _ => {},
    }
    if let Some(e) = event {
        if same(e.event_type.as_str(), "recovery.selected") {
            return "Recovering once after failed verification";
        }
    }
    match o.phase {
        RunPhase::Verifying => "Verifying",
        RunPhase::Executing => "Working",
        RunPhase::Preparing => "Preparing",
        RunPhase::Planning => "Planning",
        RunPhase::Integrating => "Integrating",
        RunPhase::Reviewing => "Ready for review",
        RunPhase::Applying => "Applying",
        RunPhase::Finished => "Finished",
    }
}

/// The name that a model is shown under; details and machine output keep the exact identity.
pub open spec fn alias(model: Seq<char>) -> Seq<char> {
    if model == "gpt-5.6-luna"@ {
        "Luna"@
    } else if model == "gpt-5.6-terra"@ {
        "Terra"@
    } else if model == "gpt-5.6-sol"@ {
        "Sol"@
    } else if model == "gpt-6-astra"@ {
        "Astra"@
    } else {
        model
    }
}

fn model_name(model: &str) -> (r: &str)
    ensures
        r@ == alias(model@),
{
    if same(model, "gpt-5.6-luna") {
        "Luna"
    } else if same(model, "gpt-5.6-terra") {
        "Terra"
    } else if same(model, "gpt-5.6-sol") {
        "Sol"
    } else if same(model, "gpt-6-astra") {
        "Astra"
    } else {
        model
    }
}

/// What is said of a verification.
pub open spec fn verification_words(state: VerificationState) -> Seq<char> {
    match state {
        VerificationState::NotConfigured => "Unverified — no checks configured"@,
        VerificationState::NotRun => "Verification has not run"@,
        VerificationState::Passed => "Verification passed"@,
        VerificationState::Failed => "Verification failed"@,
        VerificationState::Inconclusive => "Verification inconclusive"@,
    }
}

/// What is said of a verification.
pub fn verification_text(state: VerificationState) -> (r: &'static str)
    ensures
        r@ == verification_words(state),
{
    match state {
        VerificationState::NotConfigured => "Unverified — no checks configured",
        VerificationState::NotRun => "Verification has not run",
        VerificationState::Passed => "Verification passed",
        VerificationState::Failed => "Verification failed",
        VerificationState::Inconclusive => "Verification inconclusive",
    }
}

/// The verdict on the source in one line.
pub open spec fn coherence_words(v: Validity) -> Seq<char> {
    match v.decision {
        Decision::Continue => if !v.world_changed {
            "Coherence: CONTINUE — world unchanged"@
        } else {
            "Coherence: CONTINUE — "@ + decimal(v.changed_files as nat) + " file"@ + plural(
                v.changed_files,
            ) + " changed underneath, none affect this work"@
        },
        Decision::Refresh => "Coherence: REFRESH — "@ + (if v.reasons@.len() > 0 {
            v.reasons@[0].detail@
        } else {
            "files changed underneath the work"@
        }),
        Decision::Stop => "Coherence: STOP — this patch is already in the source"@,
    }
}

/// The ending of a counted word.
pub open spec fn plural(n: u64) -> Seq<char> {
    if n == 1 {
        ""@
    } else {
        "s"@
    }
}

fn ending(n: u64) -> (r: &'static str)
    ensures
        r@ == plural(n),
{
    if n == 1 {
        ""
    } else {
        "s"
    }
}

/// The verdict on the source in one line, shown under the verification.
pub fn coherence_text(validity: &Validity) -> (r: String)
    ensures
        r@ == coherence_words(*validity),
{
    match validity.decision {
        Decision::Continue => {
            if !validity.world_changed {
                "Coherence: CONTINUE — world unchanged".to_owned()
            } else {
                let mut text = "Coherence: CONTINUE — ".to_owned();
                text.push_str(decimal_of(validity.changed_files).as_str());
                text.push_str(" file");
                text.push_str(ending(validity.changed_files));
                text.push_str(" changed underneath, none affect this work");
                text
            }
        },
        Decision::Refresh => {
            let mut text = "Coherence: REFRESH — ".to_owned();
            if validity.reasons.len() > 0 {
                text.push_str(validity.reasons[0].detail.as_str());
            } else {
                text.push_str("files changed underneath the work");
            }
            text
        },
        Decision::Stop => "Coherence: STOP — this patch is already in the source".to_owned(),
    }
}

/// How many terminal cells a text takes.
pub uninterp spec fn display_width(s: Seq<char>) -> nat;

/// `UnicodeWidthStr::width`: how many terminal cells a text takes. The result is named.
#[verifier::external_body]
pub(crate) fn width_of(s: &str) -> (r: usize)
    ensures
        r == display_width(s@),
{
    unicode_width::UnicodeWidthStr::width(s)
}

/// The extended grapheme clusters of a text, in order.
pub uninterp spec fn clusters(s: Seq<char>) -> Seq<Seq<char>>;

/// Texts one behind the other.
pub open spec fn together(parts: Seq<Seq<char>>) -> Seq<char>
    decreases parts.len(),
{
    if parts.len() == 0 {
        Seq::empty()
    } else {
        together(parts.drop_last()) + parts.last()
    }
}

/// `UnicodeSegmentation::graphemes` with extended clusters. The result is named; together the clusters are
/// the text.
#[verifier::external_body]
pub(crate) fn split_clusters(s: &str) -> (r: Vec<String>)
    ensures
        texts(r@) == clusters(s@),
        together(texts(r@)) == s@,
{
    unicode_segmentation::UnicodeSegmentation::graphemes(s, true).map(str::to_owned).collect()
}

/// A text on one line.
pub open spec fn one_line(s: Seq<char>) -> Seq<char> {
    replaced(replaced(cleaned(s), "\n"@, " "@), "\t"@, " "@)
}

/// A grapheme cluster and how many terminal cells it takes.
#[derive(Debug, Clone, PartialEq, Eq)]
pub struct Cluster {
    pub text: String,
    pub cells: usize,
}

/// A text in clusters, with the cells that each takes and that the whole takes.
#[derive(Debug, Clone, PartialEq, Eq)]
pub struct Measured {
    pub clusters: Vec<Cluster>,
    pub cells: usize,
}

/// The clusters, each with its cells.
pub open spec fn cells_of(parts: Seq<Cluster>) -> Seq<(Seq<char>, nat)> {
    parts.map_values(|c: Cluster| (c.text@, c.cells as nat))
}

/// The clusters of a text, each with its cells.
pub open spec fn measured(s: Seq<char>) -> Seq<(Seq<char>, nat)> {
    clusters(s).map_values(|c: Seq<char>| (c, display_width(c)))
}

/// Measures a text.
pub(crate) fn measure(s: &str) -> (r: Measured)
    ensures
        r.cells == display_width(s@),
        cells_of(r.clusters@) == measured(s@),
{
    let cells = width_of(s);
    let parts = split_clusters(s);
    let ghost all = measured(s@);
    let mut out: Vec<Cluster> = Vec::new();
    let mut i: usize = 0;
    assert(texts(parts@).len() == parts@.len());
    assert(cells_of(out@) =~= all.take(0));
    while i < parts.len()
        invariant
            i <= parts.len(),
            texts(parts@) == clusters(s@),
            texts(parts@).len() == parts@.len(),
            all == measured(s@),
            cells_of(out@) == all.take(i as int),
        decreases parts.len() - i,
    {
        let ghost before = out@;
        assert(clusters(s@)[i as int] == parts@[i as int]@);
        out.push(Cluster { cells: width_of(parts[i].as_str()), text: parts[i].clone() });
        assert(cells_of(out@) =~= cells_of(before).push(all[i as int]));
        assert(all.take(i as int + 1) =~= all.take(i as int).push(all[i as int]));
        i += 1;
    }
    assert(all.take(parts@.len() as int) =~= all);
    Measured { clusters: out, cells }
}

/// The clusters from `i` on that fit beside three dots, where `cells` are taken already.
pub open spec fn kept(parts: Seq<(Seq<char>, nat)>, width: int, i: int, cells: int) -> Seq<char>
    decreases parts.len() - i,
{
    if i < 0 || i >= parts.len() || cells + parts[i].1 + 3 > width {
        Seq::empty()
    } else {
        parts[i].0 + kept(parts, width, i + 1, cells + parts[i].1)
    }
}

/// As many of three dots as fit.
pub open spec fn dots(width: int) -> Seq<char> {
    if width <= 0 {
        ""@
    } else if width == 1 {
        "."@
    } else if width == 2 {
        ".."@
    } else {
        "..."@
    }
}

/// A line that takes `cells`, cut between its clusters to a width.
pub open spec fn cut(line: Seq<char>, cells: int, parts: Seq<(Seq<char>, nat)>, width: int) -> Seq<char> {
    if cells <= width {
        line
    } else {
        kept(parts, width, 0, 0) + dots(width)
    }
}

/// A text on one line, cut to a width.
pub open spec fn clipped(s: Seq<char>, width: int) -> Seq<char> {
    let line = one_line(s);
    cut(line, display_width(line) as int, measured(line), width)
}

/// A line that was measured, cut between its clusters to a width.
pub fn cut_line(line: &str, m: &Measured, width: u16) -> (r: String)
    ensures
        r@ == cut(line@, m.cells as int, cells_of(m.clusters@), width as int),
{
    let limit: usize = width as usize;
    if m.cells <= limit {
        return line.to_owned();
    }
    let parts = &m.clusters;
    let ghost all = cells_of(parts@);
    let mut out = String::new();
    let mut cells: usize = 0;
    let mut i: usize = 0;
    let mut full = false;
    assert(out@ + kept(all, limit as int, 0, 0) =~= kept(all, limit as int, 0, 0));
    while i < parts.len() && !full
        invariant
            i <= parts.len(),
            all == cells_of(parts@),
            limit == width,
            cells <= limit,
            kept(all, limit as int, 0, 0) == out@ + (if full {
                Seq::empty()
            } else {
                kept(all, limit as int, i as int, cells as int)
            }),
        decreases parts.len() - i, (if full {
            0int
        } else {
            1int
        }),
    {
        assert(all[i as int] == (parts@[i as int].text@, parts@[i as int].cells as nat));
        let n = parts[i].cells;
        if limit < 3 || n > limit - 3 || cells > limit - 3 - n {
            full = true;
            assert(out@ + Seq::<char>::empty() =~= out@);
        } else {
            cells = cells + n;
            out.push_str(parts[i].text.as_str());
            i += 1;
            assert(kept(all, limit as int, 0, 0) =~= out@ + kept(
                all,
                limit as int,
                i as int,
                cells as int,
            ));
        }
    }
    assert(kept(all, limit as int, 0, 0) =~= out@);
    if width == 0 {
        out.push_str("");
    } else if width == 1 {
        out.push_str(".");
    } else if width == 2 {
        out.push_str("..");
    } else {
        out.push_str("...");
    }
    out
}

/// A text on one line, cut to a width between grapheme clusters.
pub fn clip(text: &str, width: u16) -> (r: String)
    ensures
        r@ == clipped(text@, width as int),
{
    proof {
        reveal_strlit("\n");
        reveal_strlit("\t");
    }
    let clean = sanitize(text);
    let unbroken = replace_text(clean.as_str(), "\n", " ");
    let line = replace_text(unbroken.as_str(), "\t", " ");
    let m = measure(line.as_str());
    cut_line(line.as_str(), &m, width)
}

/// What is left of a width beside something.
pub open spec fn beside(width: int, taken: int) -> int {
    if width > taken {
        width - taken
    } else {
        0
    }
}

pub(crate) fn less(width: u16, taken: u16) -> (r: u16)
    ensures
        r == beside(width as int, taken as int),
{
    if width > taken {
        width - taken
    } else {
        0
    }
}

/// The heading of a goal.
pub open spec fn heading(task: Seq<char>, width: int) -> Seq<char> {
    "Goal  "@ + clipped(task, beside(width, 6))
}

/// The heading of a goal.
pub fn goal_heading(task: &str, width: u16) -> (r: String)
    ensures
        r@ == heading(task@, width as int),
{
    let mut text = "Goal  ".to_owned();
    let short = clip(task, less(width, 6));
    text.push_str(short.as_str());
    text
}

/// The mark of the auto-apply mode before a goal.
pub open spec fn mode_mark(ascii: bool, auto_apply: bool) -> Seq<char> {
    if !auto_apply {
        ""@
    } else if ascii {
        ">> "@
    } else {
        "⏵⏵ "@
    }
}

/// The heading of a goal, with the mode that it runs under.
pub fn goal_heading_marked(task: &str, width: u16, ascii: bool, auto_apply: bool) -> (r: String)
    ensures
        r@ == mode_mark(ascii, auto_apply) + heading(task@, width as int),
{
    let mut text = if !auto_apply {
        "".to_owned()
    } else if ascii {
        ">> ".to_owned()
    } else {
        "⏵⏵ ".to_owned()
    };
    let goal = goal_heading(task, width);
    text.push_str(goal.as_str());
    text
}

/// The indicator of the auto-apply mode.
pub open spec fn mode_words(ascii: bool, auto_apply: bool) -> Seq<char> {
    if ascii {
        if auto_apply {
            ">> AUTO-APPLY ON - Shift+Tab to pause"@
        } else {
            "[review before apply] Shift+Tab"@
        }
    } else if auto_apply {
        "⏵⏵ auto-apply on · Shift+Tab to pause"@
    } else {
        "⏸ review before apply · Shift+Tab"@
    }
}

/// The indicator of the auto-apply mode, always the first part of the hints.
pub fn mode_hint_text(ascii: bool, auto_apply: bool) -> (r: String)
    ensures
        r@ == mode_words(ascii, auto_apply),
{
    if ascii {
        if auto_apply {
            ">> AUTO-APPLY ON - Shift+Tab to pause".to_owned()
        } else {
            "[review before apply] Shift+Tab".to_owned()
        }
    } else if auto_apply {
        "⏵⏵ auto-apply on · Shift+Tab to pause".to_owned()
    } else {
        "⏸ review before apply · Shift+Tab".to_owned()
    }
}

/// A hint behind the indicator of the mode.
pub fn hint_with_mode(ascii: bool, auto_apply: bool, hint: &str) -> (r: String)
    ensures
        r@ == mode_words(ascii, auto_apply) + (if hint@.len() == 0 {
            Seq::empty()
        } else if ascii {
            " - "@ + hint@
        } else {
            " · "@ + hint@
        }),
{
    let mut text = mode_hint_text(ascii, auto_apply);
    if !hint.is_empty() {
        if ascii {
            text.push_str(" - ");
        } else {
            text.push_str(" · ");
        }
        text.push_str(hint);
    }
    assert(text@ =~= mode_words(ascii, auto_apply) + (if hint@.len() == 0 {
        Seq::empty()
    } else if ascii {
        " - "@ + hint@
    } else {
        " · "@ + hint@
    }));
    text
}

/// A text as it is shown: sanitized, and in ASCII where that is asked for.
pub open spec fn displayed(s: Seq<char>, ascii: bool) -> Seq<char> {
    let text = cleaned(s);
    if ascii {
        replaced(replaced(replaced(replaced(text, "…"@, "..."@), "·"@, "-"@), "→"@, "->"@), "—"@, "-"@)
    } else {
        text
    }
}

/// A text as it is shown.
pub fn display_text(text: &str, ascii: bool) -> (r: String)
    ensures
        r@ == displayed(text@, ascii),
{
    let clean = sanitize(text);
    if !ascii {
        return clean;
    }
    proof {
        reveal_strlit("…");
        reveal_strlit("·");
        reveal_strlit("→");
        reveal_strlit("—");
    }
    let text = replace_text(clean.as_str(), "…", "...");
    let text = replace_text(text.as_str(), "·", "-");
    let text = replace_text(text.as_str(), "→", "->");
    replace_text(text.as_str(), "—", "-")
}

/// What was entered.
#[derive(Debug, Clone, PartialEq, Eq)]
pub enum Input {
    Submit(String),
    Cancel,
    Eof,
    Changed,
    /// Never submits or edits the draft.
    ToggleAutoApply,
}

/// What `/auto-apply` asked for; a bare one is resolved against the current mode.
#[derive(Debug, Clone, Copy, PartialEq, Eq, Structural)]
pub enum AutoApplyCommand {
    On,
    Off,
    Toggle,
}

/// What an input asks of the auto-apply mode, if it does.
pub open spec fn auto_apply_command(s: Seq<char>) -> Option<AutoApplyCommand> {
    let line = trim(s);
    if !begins_with(line, "/auto-apply"@) {
        None
    } else {
        let word = trim(line.skip("/auto-apply"@.len() as int));
        if word == ""@ {
            Some(AutoApplyCommand::Toggle)
        } else if word == "on"@ {
            Some(AutoApplyCommand::On)
        } else if word == "off"@ {
            Some(AutoApplyCommand::Off)
        } else {
            None
        }
    }
}

/// What an input asks of the auto-apply mode, if it does.
pub fn parse_auto_apply_command(text: &str) -> (r: Option<AutoApplyCommand>)
    ensures
        r == auto_apply_command(text@),
{
    let line = trimmed(text);
    if !has_prefix(line.as_str(), "/auto-apply") {
        return None;
    }
    proof {
        reveal_strlit("/auto-apply");
    }
    let chars = chars_of(line.as_str());
    let rest = part(&chars, 11, chars.len());
    assert(rest@ =~= line@.skip("/auto-apply"@.len() as int));
    let word = trimmed(rest.as_str());
    if same(word.as_str(), "") {
        Some(AutoApplyCommand::Toggle)
    } else if same(word.as_str(), "on") {
        Some(AutoApplyCommand::On)
    } else if same(word.as_str(), "off") {
        Some(AutoApplyCommand::Off)
    } else {
        None
    }
}

/// The mode after a command.
pub fn commanded_mode(command: AutoApplyCommand, current: bool) -> (r: bool)
    ensures
        r == (match command {
            AutoApplyCommand::On => true,
            AutoApplyCommand::Off => false,
            AutoApplyCommand::Toggle => !current,
        }),
{
    match command {
        AutoApplyCommand::On => true,
        AutoApplyCommand::Off => false,
        AutoApplyCommand::Toggle => !current,
    }
}

/// What is said when the mode changed.
pub fn mode_line(auto_apply: bool) -> (r: &'static str)
    ensures
        r@ == (if auto_apply {
            "Auto-apply on: eligible results will be applied without review."@
        } else {
            "Auto-apply off: results wait for your review."@
        }),
{
    if auto_apply {
        "Auto-apply on: eligible results will be applied without review."
    } else {
        "Auto-apply off: results wait for your review."
    }
}

/// The question that a run waits on.
pub fn pending_question(run: &RunRecord) -> (r: Option<&Clarification>)
    ensures
        behind(r) == waiting_question(*run),
{
    match &run.phase3 {
        Some(p) => {
            let n = p.questions.len();
            if n > 0 && p.questions[n - 1].state == QuestionState::Pending {
                Some(&p.questions[n - 1])
            } else {
                None
            }
        },
        None => None,
    }
}

/// The command that answers or cancels the question that a run waits on.
pub fn question_command(run: &RunRecord) -> (r: Option<QuestionCommand>)
    ensures
        match waiting_question(*run) {
            Some(q) => r matches Some(c) && c == (QuestionCommand {
                run_id: run.id,
                question_id: q.id,
                revision: q.revision,
                generation: q.generation,
            }),
            None => r is None,
        },
{
    match pending_question(run) {
        Some(q) => Some(
            QuestionCommand {
                run_id: run.id.clone(),
                question_id: q.id.clone(),
                revision: q.revision,
                generation: q.generation,
            },
        ),
        None => None,
    }
}

/// A command on the delivery of a run at one revision of it.
#[derive(Debug, Clone, PartialEq, Eq)]
pub struct ReviewCommand {
    pub run_id: String,
    pub candidate_id: String,
    pub revision: u64,
}

/// The command that reviews the delivery of a run as it stands.
pub fn review_command(run: &RunRecord) -> (r: Result<ReviewCommand, String>)
    ensures
        if run.candidates@.len() == 1 {
            r == Ok::<ReviewCommand, String>(
                ReviewCommand {
                    run_id: run.id,
                    candidate_id: run.candidates@[0].id,
                    revision: run.state_revision,
                },
            )
        } else {
            r matches Err(e) && e@ == "delivery has no single candidate"@
        },
{
    if run.candidates.len() != 1 {
        return Err("delivery has no single candidate".to_owned());
    }
    Ok(
        ReviewCommand {
            run_id: run.id.clone(),
            candidate_id: run.candidates[0].id.clone(),
            revision: run.state_revision,
        },
    )
}

/// How many launches are known and uncertain, in a line; `counts` is missing where they cannot be read.
pub fn launch_accounting(run: &RunRecord, counts: Option<(u32, u32)>) -> (r: String)
    ensures
        ({
            let maximum = match run.phase3 {
                Some(p) => p.max_invocations,
                None => 2,
            };
            r@ == (match counts {
                Some((known, uncertain)) => "Launches "@ + decimal(known as nat) + " recorded · "@
                    + decimal(uncertain as nat) + " uncertain · limit "@ + decimal(maximum as nat),
                None => "Launch count unavailable · limit "@ + decimal(maximum as nat),
            })
        }),
{
    let maximum: u32 = match &run.phase3 {
        Some(p) => p.max_invocations,
        None => 2,
    };
    match counts {
        Some((known, uncertain)) => {
            let mut text = "Launches ".to_owned();
            text.push_str(decimal_of(known as u64).as_str());
            text.push_str(" recorded · ");
            text.push_str(decimal_of(uncertain as u64).as_str());
            text.push_str(" uncertain · limit ");
            text.push_str(decimal_of(maximum as u64).as_str());
            text
        },
        None => {
            let mut text = "Launch count unavailable · limit ".to_owned();
            text.push_str(decimal_of(maximum as u64).as_str());
            text
        },
    }
}

/// How long work has been going on, with a mark that moves; `reduced` keeps the mark still.
pub open spec fn activity(elapsed_ms: u64, ascii: bool, reduced: bool) -> Seq<char> {
    let turn = elapsed_ms / 200 % 4;
    let frame = if reduced {
        "."@
    } else if ascii {
        if turn == 0 {
            "|"@
        } else if turn == 1 {
            "/"@
        } else if turn == 2 {
            "-"@
        } else {
            "\\"@
        }
    } else {
        if turn == 0 {
            "◐"@
        } else if turn == 1 {
            "◓"@
        } else if turn == 2 {
            "◑"@
        } else {
            "◒"@
        }
    };
    frame + " "@ + decimal((elapsed_ms / 1000) as nat) + "s elapsed · Ctrl+C cancel"@
}

/// How long work has been going on, with a mark that moves.
pub fn activity_hint(elapsed_ms: u64, ascii: bool, reduced: bool) -> (r: String)
    ensures
        r@ == activity(elapsed_ms, ascii, reduced),
{
    let turn: u64 = elapsed_ms / 200 % 4;
    let frame = if reduced {
        "."
    } else if ascii {
        if turn == 0 {
            "|"
        } else if turn == 1 {
            "/"
        } else if turn == 2 {
            "-"
        } else {
            "\\"
        }
    } else {
        if turn == 0 {
            "◐"
        } else if turn == 1 {
            "◓"
        } else if turn == 2 {
            "◑"
        } else {
            "◒"
        }
    };
    let mut text = frame.to_owned();
    text.push_str(" ");
    text.push_str(decimal_of(elapsed_ms / 1000).as_str());
    text.push_str("s elapsed · Ctrl+C cancel");
    text
}

/// The mark of what is done.
pub open spec fn done(ascii: bool) -> Seq<char> {
    if ascii {
        "*"@
    } else {
        "●"@
    }
}

/// The mark of what is still to come.
pub open spec fn pending(ascii: bool) -> Seq<char> {
    if ascii {
        "o"@
    } else {
        "○"@
    }
}

/// The mark of what failed.
pub open spec fn failed(ascii: bool) -> Seq<char> {
    if ascii {
        "x"@
    } else {
        "×"@
    }
}

/// The mark of what is left out.
pub open spec fn skipped(ascii: bool) -> Seq<char> {
    if ascii {
        "-"@
    } else {
        "–"@
    }
}

/// The line between two marks.
pub open spec fn edge(ascii: bool, active: bool) -> Seq<char> {
    if ascii {
        if active {
            " == "@
        } else {
            " -- "@
        }
    } else if active {
        " ━━ "@
    } else {
        " ── "@
    }
}

/// The name that the work of a run is shown under.
pub open spec fn worker(run: RunRecord) -> Seq<char> {
    if run.mode == RunMode::Attached {
        match run.attachment {
            Some(a) => match a.agent {
                Some(agent) => agent@,
                None => "external"@,
            },
            None => "external"@,
        }
    } else if run.attempts@.len() > 0 && run.attempts@.last().resolved_model is Some {
        alias(run.attempts@.last().resolved_model->0@)
    } else {
        match run.allocation {
            Some(d) => alias(d.selected.resolved_model@),
            None => "work"@,
        }
    }
}

/// The mark of the work of a run.
pub open spec fn work_mark(run: RunRecord, ascii: bool) -> Seq<char> {
    if run.attempts@.len() == 0 {
        pending(ascii)
    } else {
        done(ascii)
    }
}

/// The mark of a verification.
pub open spec fn verify_mark(state: VerificationState, ascii: bool) -> Seq<char> {
    match state {
        VerificationState::Passed => done(ascii),
        VerificationState::Failed => failed(ascii),
        VerificationState::Inconclusive => failed(ascii),
        VerificationState::NotConfigured => skipped(ascii),
        VerificationState::NotRun => pending(ascii),
    }
}

/// The mark of a review.
pub open spec fn review_mark(o: RunOutcome, ascii: bool) -> Seq<char> {
    if (o.review == ReviewState::Accepted || o.review == ReviewState::Pending) && o.work_result
        == WorkResult::Ready {
        done(ascii)
    } else if o.review == ReviewState::Rejected {
        failed(ascii)
    } else {
        pending(ascii)
    }
}

/// Whether the line towards the verification is drawn active.
pub open spec fn verify_active(o: RunOutcome) -> bool {
    o.phase == RunPhase::Verifying || o.verification == VerificationState::Passed || o.verification
        == VerificationState::Failed || o.verification == VerificationState::Inconclusive
}

/// The way from the goal to the review, in as many lines as the width asks for.
pub open spec fn graph(run: RunRecord, width: int, ascii: bool) -> Seq<char> {
    let work = work_mark(run, ascii) + " "@ + worker(run);
    let verify = verify_mark(run.outcome.verification, ascii);
    let review = review_mark(run.outcome, ascii);
    let goal = done(ascii) + " goal"@ + edge(ascii, run.attempts@.len() > 0) + work;
    let review_edge = edge(ascii, run.outcome.work_result == WorkResult::Ready);
    if width < 40 {
        work + "\n"@ + verify + " checks  "@ + review + " review"@
    } else if width < 68 {
        goal + "\n"@ + verify + " verify"@ + review_edge + review + " review"@
    } else {
        goal + edge(ascii, verify_active(run.outcome)) + verify + " verify"@ + review_edge + review
            + " review"@
    }
}

fn mark_of(kind: u8, ascii: bool) -> (r: &'static str)
    ensures
        r@ == (if kind == 0 {
            done(ascii)
        } else if kind == 1 {
            pending(ascii)
        } else if kind == 2 {
            failed(ascii)
        } else {
            skipped(ascii)
        }),
{
    if kind == 0 {
        if ascii {
            "*"
        } else {
            "●"
        }
    } else if kind == 1 {
        if ascii {
            "o"
        } else {
            "○"
        }
    } else if kind == 2 {
        if ascii {
            "x"
        } else {
            "×"
        }
    } else if ascii {
        "-"
    } else {
        "–"
    }
}

fn edge_of(ascii: bool, active: bool) -> (r: &'static str)
    ensures
        r@ == edge(ascii, active),
{
    if ascii {
        if active {
            " == "
        } else {
            " -- "
        }
    } else if active {
        " ━━ "
    } else {
        " ── "
    }
}

fn worker_of(run: &RunRecord) -> (r: &str)
    ensures
        r@ == worker(*run),
{
    if run.mode == RunMode::Attached {
        return match &run.attachment {
            Some(a) => match &a.agent {
                Some(agent) => agent.as_str(),
                None => "external",
            },
            None => "external",
        };
    }
    let n = run.attempts.len();
    if n > 0 {
        if let Some(model) = &run.attempts[n - 1].resolved_model {
            return model_name(model.as_str());
        }
    }
    match &run.allocation {
        Some(d) => model_name(d.selected.resolved_model.as_str()),
        None => "work",
    }
}

/// The way from the goal to the review, in as many lines as the width asks for.
fn graph_of(run: &RunRecord, width: u16, ascii: bool) -> (r: String)
    ensures
        r@ == graph(*run, width as int, ascii),
{
    let o = run.outcome;
    let begun = run.attempts.len() > 0;
    let mut work = mark_of(
        if begun {
            0
        } else {
            1
        },
        ascii,
    ).to_owned();
    work.push_str(" ");
    work.push_str(worker_of(run));
    let verify = match o.verification {
        VerificationState::Passed => mark_of(0, ascii),
        VerificationState::Failed => mark_of(2, ascii),
        VerificationState::Inconclusive => mark_of(2, ascii),
        VerificationState::NotConfigured => mark_of(3, ascii),
        VerificationState::NotRun => mark_of(1, ascii),
    };
    let ready = o.work_result == WorkResult::Ready;
    let review = if (o.review == ReviewState::Accepted || o.review == ReviewState::Pending)
        && ready {
        mark_of(0, ascii)
    } else if o.review == ReviewState::Rejected {
        mark_of(2, ascii)
    } else {
        mark_of(1, ascii)
    };
    if width < 40 {
        let mut text = work;
        text.push_str("\n");
        text.push_str(verify);
        text.push_str(" checks  ");
        text.push_str(review);
        text.push_str(" review");
        return text;
    }
    let mut text = mark_of(0, ascii).to_owned();
    text.push_str(" goal");
    text.push_str(edge_of(ascii, begun));
    text.push_str(work.as_str());
    assert(text@ =~= done(ascii) + " goal"@ + edge(ascii, run.attempts@.len() > 0) + work@);
    if width < 68 {
        text.push_str("\n");
    } else {
        let active = o.phase == RunPhase::Verifying || o.verification == VerificationState::Passed
            || o.verification == VerificationState::Failed || o.verification
            == VerificationState::Inconclusive;
        text.push_str(edge_of(ascii, active));
    }
    text.push_str(verify);
    text.push_str(" verify");
    text.push_str(edge_of(ascii, ready));
    text.push_str(review);
    text.push_str(" review");
    text
}

/// What is said of work in progress: nothing unless an agent is running.
pub open spec fn running_lines(run: RunRecord, width: int) -> Seq<Seq<char>> {
    if run.outcome.phase == RunPhase::Executing && run.outcome.work_result == WorkResult::Pending
        && run.outcome.waiting_on == WaitingOn::Nothing {
        seq!["Agent running · tool activity is in private logs"@] + (match run.allocation {
            Some(d) => seq!["Choice: "@ + clipped(d.reason@, beside(width, 8))],
            None => Seq::empty(),
        })
    } else {
        Seq::empty()
    }
}

fn put_running(lines: &mut Vec<String>, run: &RunRecord, width: u16)
    ensures
        texts(final(lines)@) == texts(old(lines)@) + running_lines(*run, width as int),
{
    if run.outcome.phase == RunPhase::Executing && run.outcome.work_result == WorkResult::Pending
        && run.outcome.waiting_on == WaitingOn::Nothing {
        put(lines, "Agent running · tool activity is in private logs");
        if let Some(d) = &run.allocation {
            let mut text = "Choice: ".to_owned();
            let short = clip(d.reason.as_str(), less(width, 8));
            text.push_str(short.as_str());
            put(lines, text.as_str());
        }
    }
    assert(texts(lines@) =~= texts(old(lines)@) + running_lines(*run, width as int));
}

/// What became of an attempt, in words.
pub open spec fn attempt_state(a: AttemptRecord) -> Seq<char> {
    if a.detail.failure == Some(FailureKind::TargetVerification) {
        "verification failed"@
    } else if a.outcome@ == "preparing"@ {
        "preparing"@
    } else if a.outcome@ == "running"@ {
        "working"@
    } else if a.outcome@ == "completed"@ {
        "completed"@
    } else if a.outcome@ == "failed"@ {
        "failed"@
    } else if a.outcome@ == "cancelled"@ {
        "cancelled"@
    } else if a.outcome@ == "interrupted"@ {
        "interrupted"@
    } else if a.outcome@ == "timed_out"@ {
        "timed out"@
    } else if a.outcome@ == "not_launched"@ {
        "not started"@
    } else {
        "state unavailable"@
    }
}

fn attempt_state_of(a: &AttemptRecord) -> (r: &'static str)
    ensures
        r@ == attempt_state(*a),
{
    if let Some(FailureKind::TargetVerification) = a.detail.failure {
        return "verification failed";
    }
    let outcome = a.outcome.as_str();
    if same(outcome, "preparing") {
        "preparing"
    } else if same(outcome, "running") {
        "working"
    } else if same(outcome, "completed") {
        "completed"
    } else if same(outcome, "failed") {
        "failed"
    } else if same(outcome, "cancelled") {
        "cancelled"
    } else if same(outcome, "interrupted") {
        "interrupted"
    } else if same(outcome, "timed_out") {
        "timed out"
    } else if same(outcome, "not_launched") {
        "not started"
    } else {
        "state unavailable"
    }
}

/// The line of one of several attempts.
pub open spec fn branch_line(a: AttemptRecord, ascii: bool) -> Seq<char> {
    (if ascii {
        "+-"@
    } else if a.ordinal == 1 {
        "├─"@
    } else {
        "╰━"@
    }) + " "@ + (match a.detail.reason {
        Some(reason) => if reason@ == "target_verification_failure"@ {
            "Recovery · "@
        } else {
            "Continuation · "@
        },
        None => ""@,
    }) + "Attempt "@ + decimal(a.ordinal as nat) + " · "@ + (match a.resolved_model {
        Some(model) => alias(model@),
        None => "model unknown"@,
    }) + ": "@ + attempt_state(a)
}

/// One line for each attempt, where there are several: a single one is shown by the work itself.
pub open spec fn branch_lines(attempts: Seq<AttemptRecord>, ascii: bool) -> Seq<Seq<char>> {
    if attempts.len() > 1 {
        attempts.map_values(|a: AttemptRecord| branch_line(a, ascii))
    } else {
        Seq::empty()
    }
}

fn branch_of(a: &AttemptRecord, ascii: bool) -> (r: String)
    ensures
        r@ == branch_line(*a, ascii),
{
    let mut text = (if ascii {
        "+-"
    } else if a.ordinal == 1 {
        "├─"
    } else {
        "╰━"
    }).to_owned();
    text.push_str(" ");
    text.push_str(
        match &a.detail.reason {
            Some(reason) => if same(reason.as_str(), "target_verification_failure") {
                "Recovery · "
            } else {
                "Continuation · "
            },
            None => "",
        },
    );
    text.push_str("Attempt ");
    text.push_str(decimal_of(a.ordinal as u64).as_str());
    text.push_str(" · ");
    text.push_str(
        match &a.resolved_model {
            Some(model) => model_name(model.as_str()),
            None => "model unknown",
        },
    );
    text.push_str(": ");
    text.push_str(attempt_state_of(a));
    text
}

fn put_branches(lines: &mut Vec<String>, attempts: &Vec<AttemptRecord>, ascii: bool)
    ensures
        texts(final(lines)@) == texts(old(lines)@) + branch_lines(attempts@, ascii),
{
    let ghost whole = branch_lines(attempts@, ascii);
    let ghost before = texts(lines@);
    if attempts.len() > 1 {
        let mut i: usize = 0;
        assert(before + whole.take(0) =~= before);
        while i < attempts.len()
            invariant
                i <= attempts.len(),
                attempts@.len() > 1,
                whole == branch_lines(attempts@, ascii),
                texts(lines@) == before + whole.take(i as int),
            decreases attempts.len() - i,
        {
            let text = branch_of(&attempts[i], ascii);
            put(lines, text.as_str());
            assert(whole.take(i as int + 1) =~= whole.take(i as int).push(whole[i as int]));
            i += 1;
            assert(texts(lines@) =~= before + whole.take(i as int));
        }
        assert(whole.take(attempts@.len() as int) =~= whole);
    }
    assert(texts(lines@) =~= before + whole);
}

/// What is said of the delivery: its verification, the verdict on the source, and its size.
pub open spec fn delivery_lines(run: RunRecord, width: int) -> Seq<Seq<char>> {
    let ready = run.outcome.work_result == WorkResult::Ready;
    (if run.outcome.phase == RunPhase::Verifying || run.outcome.work_result != WorkResult::Pending {
        seq![verification_words(run.outcome.verification)]
    } else {
        Seq::empty()
    }) + (match run.coherence {
        Some(c) => match c.validity {
            Some(v) => if ready {
                seq![clipped(coherence_words(v), width)]
            } else {
                Seq::empty()
            },
            None => Seq::empty(),
        },
        None => Seq::empty(),
    }) + (if ready && run.candidates@.len() == 1 {
        seq![size_line(run.candidates@[0].diff_stats)]
    } else {
        Seq::empty()
    })
}

/// How much a change changes.
pub open spec fn size_line(d: DiffStats) -> Seq<char> {
    decimal(d.files_changed as nat) + " file"@ + plural(d.files_changed) + " changed · +"@ + decimal(
        d.lines_added as nat,
    ) + " / -"@ + decimal(d.lines_removed as nat) + " lines"@
}

fn put_delivery(lines: &mut Vec<String>, run: &RunRecord, width: u16)
    ensures
        texts(final(lines)@) == texts(old(lines)@) + delivery_lines(*run, width as int),
{
    let ready = run.outcome.work_result == WorkResult::Ready;
    if run.outcome.phase == RunPhase::Verifying || run.outcome.work_result != WorkResult::Pending {
        put(lines, verification_text(run.outcome.verification));
    }
    if ready {
        if let Some(c) = &run.coherence {
            if let Some(v) = &c.validity {
                let verdict = coherence_text(v);
                let short = clip(verdict.as_str(), width);
                put(lines, short.as_str());
            }
        }
        if run.candidates.len() == 1 {
            let d = run.candidates[0].diff_stats;
            let mut text = decimal_of(d.files_changed);
            text.push_str(" file");
            text.push_str(ending(d.files_changed));
            text.push_str(" changed · +");
            text.push_str(decimal_of(d.lines_added).as_str());
            text.push_str(" / -");
            text.push_str(decimal_of(d.lines_removed).as_str());
            text.push_str(" lines");
            put(lines, text.as_str());
        }
    }
    assert(texts(lines@) =~= texts(old(lines)@) + delivery_lines(*run, width as int));
}

/// What is said of a question that waits.
pub open spec fn question_lines(run: RunRecord) -> Seq<Seq<char>> {
    match waiting_question(run) {
        Some(q) => seq![
            "Decision needed · answering continues this goal within its remaining limit."@,
            q.report.question@,
        ] + (if q.report.choices@.len() > 0 {
            seq![joined_by(texts(q.report.choices@), " / "@)]
        } else {
            Seq::empty()
        }),
        None => Seq::empty(),
    }
}

/// Why work stopped, in words.
pub open spec fn failure_words(failure: FailureKind) -> Seq<char> {
    match failure {
        FailureKind::InvocationLimit => "The two-invocation limit leaves no continuation budget."@,
        FailureKind::Deadline => "The shared deadline expired; no continuation time remains."@,
        FailureKind::Authorization =>
            "Current subscription authorization does not permit execution."@,
        FailureKind::TargetVerification => "Configured verification failed."@,
        FailureKind::VerificationInfrastructure =>
            "Verification infrastructure failed; automatic recovery is not permitted."@,
        FailureKind::VerificationUnknown =>
            "Verification failed for an unknown reason; automatic recovery is not permitted."@,
        FailureKind::Cancelled => "Execution was cancelled."@,
        _ => "Work stopped; inspect Details for the recorded failure."@,
    }
}

fn failure_text(failure: FailureKind) -> (r: &'static str)
    ensures
        r@ == failure_words(failure),
{
    match failure {
        FailureKind::InvocationLimit => "The two-invocation limit leaves no continuation budget.",
        FailureKind::Deadline => "The shared deadline expired; no continuation time remains.",
        FailureKind::Authorization =>
            "Current subscription authorization does not permit execution.",
        FailureKind::TargetVerification => "Configured verification failed.",
        FailureKind::VerificationInfrastructure =>
            "Verification infrastructure failed; automatic recovery is not permitted.",
        FailureKind::VerificationUnknown =>
            "Verification failed for an unknown reason; automatic recovery is not permitted.",
        FailureKind::Cancelled => "Execution was cancelled.",
        _ => "Work stopped; inspect Details for the recorded failure.",
    }
}

/// What is said of what stopped the work, and of the latest event.
pub open spec fn reason_lines(run: RunRecord, event: Option<EventRecord>) -> Seq<Seq<char>> {
    (match run.phase3 {
        Some(p) => match p.failure {
            Some(failure) => seq![failure_words(failure)],
            None => Seq::empty(),
        },
        None => Seq::empty(),
    }) + (match event {
        Some(e) => match e.reason {
            Some(reason) => seq![reason@],
            None => Seq::empty(),
        },
        None => Seq::empty(),
    })
}

fn put_reasons(lines: &mut Vec<String>, run: &RunRecord, event: Option<&EventRecord>)
    ensures
        texts(final(lines)@) == texts(old(lines)@) + question_lines(*run) + reason_lines(
            *run,
            behind(event),
        ),
{
    if let Some(q) = pending_question(run) {
        put(lines, "Decision needed · answering continues this goal within its remaining limit.");
        put(lines, q.report.question.as_str());
        if q.report.choices.len() > 0 {
            let choices = join_by(&q.report.choices, " / ");
            put(lines, choices.as_str());
        }
    }
    assert(texts(lines@) =~= texts(old(lines)@) + question_lines(*run));
    if let Some(p) = &run.phase3 {
        if let Some(failure) = p.failure {
            put(lines, failure_text(failure));
        }
    }
    if let Some(e) = event {
        if let Some(reason) = &e.reason {
            put(lines, reason.as_str());
        }
    }
    assert(texts(lines@) =~= texts(old(lines)@) + question_lines(*run) + reason_lines(
        *run,
        behind(event),
    ));
}

/// What is shown of a run, before it is sanitized.
pub open spec fn projected(
    run: RunRecord,
    event: Option<EventRecord>,
    width: int,
    ascii: bool,
) -> Seq<Seq<char>> {
    seq![heading(run.task@, width), ""@, label_text(run, event), graph(run, width, ascii)]
        + running_lines(run, width) + branch_lines(run.attempts@, ascii) + delivery_lines(run, width)
        + question_lines(run) + reason_lines(run, event)
}

/// What is shown of a run: no control characters, and only ASCII signs where that is asked for.
pub open spec fn run_text(
    run: RunRecord,
    event: Option<EventRecord>,
    width: int,
    ascii: bool,
) -> Seq<char> {
    let text = cleaned(joined_lines(projected(run, event, width, ascii)));
    if ascii {
        replaced(replaced(replaced(text, "→"@, "->"@), "—"@, "-"@), "·"@, "-"@)
    } else {
        text
    }
}

/// What is shown of a run.
pub fn projection(run: &RunRecord, event: Option<&EventRecord>, width: u16, ascii: bool) -> (r:
    String)
    ensures
        r@ == run_text(*run, behind(event), width as int, ascii),
{
    let mut lines: Vec<String> = Vec::new();
    let goal = goal_heading(run.task.as_str(), width);
    put(&mut lines, goal.as_str());
    put(&mut lines, "");
    put(&mut lines, label(run, event));
    let way = graph_of(run, width, ascii);
    put(&mut lines, way.as_str());
    assert(texts(lines@) =~= seq![
        heading(run.task@, width as int),
        ""@,
        label_text(*run, behind(event)),
        graph(*run, width as int, ascii),
    ]);
    put_running(&mut lines, run, width);
    put_branches(&mut lines, &run.attempts, ascii);
    put_delivery(&mut lines, run, width);
    put_reasons(&mut lines, run, event);
    let text = sanitize(join_lines(&lines).as_str());
    if !ascii {
        return text;
    }
    proof {
        reveal_strlit("→");
        reveal_strlit("—");
        reveal_strlit("·");
    }
    let text = replace_text(text.as_str(), "→", "->");
    let text = replace_text(text.as_str(), "—", "-");
    replace_text(text.as_str(), "·", "-")
}

/// One attempt in the details.
pub open spec fn attempt_details(a: AttemptRecord) -> Seq<char> {
    "\nAttempt "@ + decimal(a.ordinal as nat) + ": "@ + (match a.resolved_model {
        Some(model) => model@,
        None => "unknown model"@,
    }) + " · "@ + a.outcome@
}

/// One candidate in the details.
pub open spec fn candidate_details(c: CandidateRecord) -> Seq<char> {
    "\nCandidate: "@ + c.id@ + "\nPatch: "@ + c.diff_path@ + "\nOutput: "@ + c.stdout_path@
        + "\nErrors: "@ + c.stderr_path@
}

/// The details of a run, with exact identities.
pub open spec fn details_text(run: RunRecord) -> Seq<char> {
    "Goal: "@ + run.task@ + "\nRun: "@ + run.id@ + "\nState revision: "@ + decimal(
        run.state_revision as nat,
    ) + (match run.allocation {
        Some(d) => "\nAllocation: "@ + d.reason@,
        None => Seq::empty(),
    }) + together(run.attempts@.map_values(|a: AttemptRecord| attempt_details(a))) + together(
        run.candidates@.map_values(|c: CandidateRecord| candidate_details(c)),
    )
}

/// The details of a run, with exact identities.
pub fn details(run: &RunRecord) -> (r: String)
    ensures
        r@ == details_text(*run),
{
    let mut text = "Goal: ".to_owned();
    text.push_str(run.task.as_str());
    text.push_str("\nRun: ");
    text.push_str(run.id.as_str());
    text.push_str("\nState revision: ");
    text.push_str(decimal_of(run.state_revision).as_str());
    if let Some(d) = &run.allocation {
        text.push_str("\nAllocation: ");
        text.push_str(d.reason.as_str());
    }
    let ghost start = text@;
    assert(start =~= "Goal: "@ + run.task@ + "\nRun: "@ + run.id@ + "\nState revision: "@ + decimal(
        run.state_revision as nat,
    ) + (match run.allocation {
        Some(d) => "\nAllocation: "@ + d.reason@,
        None => Seq::empty(),
    }));
    let ghost attempts = run.attempts@.map_values(|a: AttemptRecord| attempt_details(a));
    let ghost candidates = run.candidates@.map_values(|c: CandidateRecord| candidate_details(c));
    let mut i: usize = 0;
    assert(attempts.take(0) =~= Seq::empty());
    assert(start + together(attempts.take(0)) =~= start);
    while i < run.attempts.len()
        invariant
            i <= run.attempts.len(),
            attempts == run.attempts@.map_values(|a: AttemptRecord| attempt_details(a)),
            text@ == start + together(attempts.take(i as int)),
        decreases run.attempts.len() - i,
    {
        let a = &run.attempts[i];
        let ghost so_far = text@;
        text.push_str("\nAttempt ");
        text.push_str(decimal_of(a.ordinal as u64).as_str());
        text.push_str(": ");
        text.push_str(
            match &a.resolved_model {
                Some(model) => model.as_str(),
                None => "unknown model",
            },
        );
        text.push_str(" · ");
        text.push_str(a.outcome.as_str());
        assert(text@ =~= so_far + attempt_details(*a));
        assert(attempts.take(i as int + 1).drop_last() =~= attempts.take(i as int));
        assert(attempts.take(i as int + 1).last() == attempt_details(*a));
        i += 1;
        assert(text@ =~= start + together(attempts.take(i as int)));
    }
    assert(attempts.take(run.attempts@.len() as int) =~= attempts);
    let ghost middle = text@;
    i = 0;
    assert(candidates.take(0) =~= Seq::empty());
    assert(middle + together(candidates.take(0)) =~= middle);
    while i < run.candidates.len()
        invariant
            i <= run.candidates.len(),
            candidates == run.candidates@.map_values(|c: CandidateRecord| candidate_details(c)),
            text@ == middle + together(candidates.take(i as int)),
        decreases run.candidates.len() - i,
    {
        let c = &run.candidates[i];
        let ghost so_far = text@;
        text.push_str("\nCandidate: ");
        text.push_str(c.id.as_str());
        text.push_str("\nPatch: ");
        text.push_str(c.diff_path.as_str());
        text.push_str("\nOutput: ");
        text.push_str(c.stdout_path.as_str());
        text.push_str("\nErrors: ");
        text.push_str(c.stderr_path.as_str());
        assert(text@ =~= so_far + candidate_details(*c));
        assert(candidates.take(i as int + 1).drop_last() =~= candidates.take(i as int));
        assert(candidates.take(i as int + 1).last() == candidate_details(*c));
        i += 1;
        assert(text@ =~= middle + together(candidates.take(i as int)));
    }
    assert(candidates.take(run.candidates@.len() as int) =~= candidates);
    text
}

/// Work that waits for anything never claims that an agent is running.
pub proof fn waiting_work_never_looks_running(run: RunRecord, width: int)
    ensures
        running_lines(run, width).len() > 0 <==> run.outcome.phase == RunPhase::Executing
            && run.outcome.work_result == WorkResult::Pending && run.outcome.waiting_on
            == WaitingOn::Nothing,
{
}

/// Checks that were not configured, or that did not pass, are never marked or described as a pass.
pub proof fn only_a_pass_looks_verified(state: VerificationState, ascii: bool)
    ensures
        verify_mark(state, ascii) == done(ascii) <==> state == VerificationState::Passed,
        verification_words(state) == "Verification passed"@ <==> state == VerificationState::Passed,
{
    reveal_strlit("*");
    reveal_strlit("o");
    reveal_strlit("x");
    reveal_strlit("-");
    reveal_strlit("●");
    reveal_strlit("○");
    reveal_strlit("×");
    reveal_strlit("–");
    reveal_strlit("Verification passed");
    reveal_strlit("Verification failed");
    reveal_strlit("Verification inconclusive");
    reveal_strlit("Verification has not run");
    reveal_strlit("Unverified — no checks configured");
    assert("*"@[0] == '*' && "o"@[0] == 'o' && "x"@[0] == 'x' && "-"@[0] == '-');
    assert("●"@[0] == '●' && "○"@[0] == '○' && "×"@[0] == '×' && "–"@[0] == '–');
    assert("Verification passed"@.len() != "Verification inconclusive"@.len());
    assert("Verification passed"@[13] == 'p');
    assert("Verification failed"@[13] == 'f');
}

} // verus!
