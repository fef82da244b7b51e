//! What a session does with what is entered: goals, questions, reviews and the auto-apply mode. Every
//! decision is made here; reading, drawing and running is done around it.

use vstd::prelude::*;

use crate::orchestrator::apply::ApplyOutcome;
use crate::orchestrator::native::{waiting_question, QuestionCommand};
use crate::presenter::editor::{Key, KeyCode};
use crate::presenter::{
    beside, cleaned, clip, clipped, coherence_text, coherence_words, commanded_mode, goal_heading,
    goal_heading_marked, heading, less, mode_mark, parse_auto_apply_command, pending_question,
    projection, question_command, run_text, sanitize, auto_apply_command, AutoApplyCommand,
    EventRecord, Input,
};
use crate::reviewer::{lossy, lossy_text};

use crate::text::{lower, lowered, optional_view, same, trim, trimmed};
use crate::record::{ReviewState, RunRecord, WorkResult, behind};
use crate::router::{ResourceProfile, ineligibility};

verus! {

/// What is entered while work is going on.
#[derive(Debug, Clone, Copy, PartialEq, Eq, Structural)]
pub enum WorkInput {
    Interrupt,
    Close,
    Hangup,
    Toggle,
    Other,
}

/// What a key means while work is going on; without one the terminal is gone.
pub fn work_input(key: Option<Key>) -> (r: WorkInput)
    ensures
        r == (match key {
            Some(k) => if k.controls('c') {
                WorkInput::Interrupt
            } else if k.controls('d') {
                WorkInput::Close
            } else if k.code == KeyCode::BackTab {
                WorkInput::Toggle
            } else {
                WorkInput::Other
            },
            None => WorkInput::Hangup,
        }),
{
    match key {
        Some(k) => {
            if k.is_control('c') {
                WorkInput::Interrupt
            } else if k.is_control('d') {
                WorkInput::Close
            } else {
                match k.code {
                    KeyCode::BackTab => WorkInput::Toggle,
                    _ => WorkInput::Other,
                }
            }
        },
        None => WorkInput::Hangup,
    }
}

/// What is remembered while work is going on.
#[derive(Debug, Clone, PartialEq, Eq)]
pub struct Work {
    /// The work was told to stop; it is still waited for.
    pub cancelled: bool,
    /// Input is still read.
    pub input_open: bool,
    /// No more input comes.
    pub closed: bool,
    pub auto_apply: bool,
    pub body: String,
    /// The state that was told last, where states are told line by line.
    pub last_label: String,
}

impl Work {
    /// Work that begins.
    pub fn new(closed: bool, auto_apply: bool) -> (r: Self)
        ensures
            !r.cancelled,
            r.input_open,
            r.closed == closed,
            r.auto_apply == auto_apply,
            r.body@ == "Preparing…"@,
            r.last_label@ == ""@,
    {
        proof {
            reveal_strlit("");
        }
        let last_label = String::new();
        assert(last_label@ =~= ""@);
        Work {
            cancelled: false,
            input_open: true,
            closed,
            auto_apply,
            body: "Preparing…".to_owned(),
            last_label,
        }
    }

    /// Takes an input. Nothing but the toggle is acted on without stopping the work, and the toggle
    /// changes nothing else.
    pub fn receive(&mut self, input: WorkInput)
        ensures
            final(self).last_label == old(self).last_label,
            match input {
                WorkInput::Interrupt => {
                    &&& final(self).cancelled
                    &&& final(self).input_open == old(self).input_open
                    &&& final(self).closed == old(self).closed
                    &&& final(self).auto_apply == old(self).auto_apply
                    &&& final(self).body@ == "Cancelling; waiting for process cleanup…"@
                },
                WorkInput::Close => {
                    &&& final(self).cancelled && !final(self).input_open && final(self).closed
                    &&& final(self).auto_apply == old(self).auto_apply
                    &&& final(self).body@ == "Closing; waiting for process cleanup…"@
                },
                WorkInput::Hangup => {
                    &&& final(self).cancelled && !final(self).input_open && final(self).closed
                    &&& final(self).auto_apply == old(self).auto_apply
                    &&& final(self).body@ == "Terminal closed; waiting for process cleanup…"@
                },
                WorkInput::Toggle => *final(self) == (Work {
                    auto_apply: !old(self).auto_apply,
                    ..*old(self)
                }),
                WorkInput::Other => *final(self) == *old(self),
            },
    {
        match input {
            WorkInput::Interrupt => {
                self.cancelled = true;
                self.body = "Cancelling; waiting for process cleanup…".to_owned();
            },
            WorkInput::Close => {
                self.cancelled = true;
                self.input_open = false;
                self.closed = true;
                self.body = "Closing; waiting for process cleanup…".to_owned();
            },
            WorkInput::Hangup => {
                self.cancelled = true;
                self.input_open = false;
                self.closed = true;
                self.body = "Terminal closed; waiting for process cleanup…".to_owned();
            },
            WorkInput::Toggle => {
                self.auto_apply = !self.auto_apply;
            },
            WorkInput::Other => {},
        }
    }

    /// Shows a committed state beside the launch count, unless the work was told to stop.
    pub fn show(
        &mut self,
        run: &RunRecord,
        event: Option<&EventRecord>,
        width: u16,
        ascii: bool,
        launch_line: &str,
    )
        ensures
            final(self).cancelled == old(self).cancelled,
            final(self).input_open == old(self).input_open,
            final(self).closed == old(self).closed,
            final(self).auto_apply == old(self).auto_apply,
            final(self).last_label == old(self).last_label,
            final(self).body@ == (if old(self).cancelled {
                old(self).body@
            } else {
                run_text(*run, behind(event), beside(width as int, 3), ascii) + "\n"@ + launch_line@
            }),
    {
        if !self.cancelled {
            let mut text = projection(run, event, less(width, 3), ascii);
            text.push_str("\n");
            text.push_str(launch_line);
            self.body = text;
        }
    }

    /// Whether a state is told in a line of its own: where states are told line by line, each once, but
    /// for a result, which the review presents.
    pub fn announce(&mut self, plain: bool, current: &str) -> (r: bool)
        ensures
            r == (plain && current@ != old(self).last_label@ && current@ != "Ready for review"@),
            final(self).cancelled == old(self).cancelled,
            final(self).input_open == old(self).input_open,
            final(self).closed == old(self).closed,
            final(self).auto_apply == old(self).auto_apply,
            final(self).body == old(self).body,
            final(self).last_label@ == (if r {
                current@
            } else {
                old(self).last_label@
            }),
    {
        if plain && !same(current, self.last_label.as_str()) && !same(current, "Ready for review") {
            self.last_label = current.to_owned();
            true
        } else {
            false
        }
    }
}

/// Whether finished work is shown at once: a result is left to the review.
pub fn shows_result(run: &RunRecord) -> (r: bool)
    ensures
        r == (waiting_question(*run) is Some || run.outcome.work_result != WorkResult::Ready),
{
    pending_question(run).is_some() || run.outcome.work_result != WorkResult::Ready
}

/// Whether an update is of the very state that the work ended in.
pub fn is_final_update(id: &str, state_revision: u64, run: &RunRecord) -> (r: bool)
    ensures
        r == (id@ == run.id@ && state_revision == run.state_revision),
{
    same(id, run.id.as_str()) && state_revision == run.state_revision
}

/// What a session does with what was entered for the next goal.
#[derive(Debug, Clone, PartialEq, Eq)]
pub enum SessionCommand {
    Resources,
    Checks,
    SetAutoApply(bool),
    Details,
    Goal(String),
    Leave,
    Again,
}

/// What a session does with an input.
pub open spec fn session_meaning(
    input: Input,
    reviewed: bool,
    auto_apply: bool,
) -> SessionCommand {
    match input {
        Input::Submit(task) => {
            let word = trim(task@);
            if word == "/resources"@ {
                SessionCommand::Resources
            } else if word == "/checks"@ {
                SessionCommand::Checks
            } else if auto_apply_command(task@) is Some {
                let new = match auto_apply_command(task@)->0 {
                    AutoApplyCommand::On => true,
                    AutoApplyCommand::Off => false,
                    AutoApplyCommand::Toggle => !auto_apply,
                };
                if new != auto_apply {
                    SessionCommand::SetAutoApply(new)
                } else {
                    SessionCommand::Again
                }
            } else if reviewed && word == "i"@ {
                SessionCommand::Details
            } else if word.len() > 0 {
                SessionCommand::Goal(task)
            } else {
                SessionCommand::Again
            }
        },
        Input::Eof => SessionCommand::Leave,
        Input::Cancel => SessionCommand::Leave,
        _ => SessionCommand::Again,
    }
}

/// What a session does with an input; `reviewed` says whether there is a reviewed result to look at.
pub fn session_command(input: Input, reviewed: bool, auto_apply: bool) -> (r: SessionCommand)
    ensures
        r == session_meaning(input, reviewed, auto_apply),
{
    match input {
        Input::Submit(task) => {
            let word = trimmed(task.as_str());
            if same(word.as_str(), "/resources") {
                return SessionCommand::Resources;
            }
            if same(word.as_str(), "/checks") {
                return SessionCommand::Checks;
            }
            if let Some(command) = parse_auto_apply_command(task.as_str()) {
                let new = commanded_mode(command, auto_apply);
                return if new != auto_apply {
                    SessionCommand::SetAutoApply(new)
                } else {
                    SessionCommand::Again
                };
            }
            if reviewed && same(word.as_str(), "i") {
                return SessionCommand::Details;
            }
            if !word.as_str().is_empty() {
                SessionCommand::Goal(task)
            } else {
                SessionCommand::Again
            }
        },
        Input::Eof => SessionCommand::Leave,
        Input::Cancel => SessionCommand::Leave,
        _ => SessionCommand::Again,
    }
}

/// How the next goal is asked for.
pub fn session_prompt(reviewed: bool, plain: bool, auto_apply: bool) -> (r: &'static str)
    ensures
        r@ == (if plain && auto_apply {
            if reviewed {
                "Next goal: What do you want to accomplish? (auto-apply on)\n[i] Details"@
            } else {
                "What do you want to accomplish? (auto-apply on)\n/resources accounts · /checks project checks"@
            }
        } else if reviewed {
            "Next goal: What do you want to accomplish?\n[i] Details"@
        } else {
            "What do you want to accomplish?\n/resources accounts · /checks project checks"@
        }),
{
    if plain && auto_apply {
        if reviewed {
            "Next goal: What do you want to accomplish? (auto-apply on)\n[i] Details"
        } else {
            "What do you want to accomplish? (auto-apply on)\n/resources accounts · /checks project checks"
        }
    } else if reviewed {
        "Next goal: What do you want to accomplish?\n[i] Details"
    } else {
        "What do you want to accomplish?\n/resources accounts · /checks project checks"
    }
}

/// What was found out about the project in time: whether it is a checkout, and what git printed of its
/// branch.
#[derive(Debug, Clone, PartialEq, Eq)]
pub struct ProjectFacts {
    pub checkout: bool,
    pub branch: Option<Vec<u8>>,
}

/// The project in a line.
pub fn project_line(facts: &Option<ProjectFacts>) -> (r: String)
    ensures
        r@ == (match *facts {
            None => "Project context unavailable · local source"@,
            Some(f) => if !f.checkout {
                "Plain directory · local source"@
            } else {
                match f.branch {
                    Some(bytes) => "Git checkout · branch "@ + trim(cleaned(lossy_text(bytes@))),
                    None => "Git checkout · detached HEAD"@,
                }
            },
        }),
{
    match facts {
        None => "Project context unavailable · local source".to_owned(),
        Some(f) => {
            if !f.checkout {
                return "Plain directory · local source".to_owned();
            }
            match &f.branch {
                Some(bytes) => {
                    let mut text = "Git checkout · branch ".to_owned();
                    let clean = sanitize(lossy(bytes).as_str());
                    text.push_str(trimmed(clean.as_str()).as_str());
                    text
                },
                None => "Git checkout · detached HEAD".to_owned(),
            }
        },
    }
}

/// What is shown when a goal was received.
pub fn received_text(task: &str, width: u16, ascii: bool, auto_apply: bool) -> (r: String)
    ensures
        r@ == mode_mark(ascii, auto_apply) + heading(task@, beside(width as int, 3))
            + "\n\nGoal received. Preparing…"@,
{
    let mut text = goal_heading_marked(task, less(width, 3), ascii, auto_apply);
    text.push_str("\n\nGoal received. Preparing…");
    text
}

/// What is shown when a goal stopped with an error; a goal that is still a draft was not lost.
pub fn stopped_text(error: &str, draft: &str) -> (r: String)
    ensures
        r@ == "Stopped: "@ + clipped(error@, 400) + "\n"@ + (if draft@.len() == 0 {
            "Inspect the retained result with dispatch status or history."@
        } else {
            "Goal preserved below; edit or explicitly submit again."@
        }),
{
    let mut text = "Stopped: ".to_owned();
    text.push_str(clip(error, 400).as_str());
    text.push_str("\n");
    if draft.is_empty() {
        text.push_str("Inspect the retained result with dispatch status or history.");
    } else {
        text.push_str("Goal preserved below; edit or explicitly submit again.");
    }
    text
}

/// Whether a resource has to be set up before a goal can run.
pub fn needs_setup(allocation_enabled: bool, profiles: &Vec<ResourceProfile>) -> (r: bool)
    ensures
        r == !(allocation_enabled && exists|i: int|
            0 <= i < profiles@.len() && ineligibility(#[trigger] profiles@[i]) is None),
{
    if !allocation_enabled {
        return true;
    }
    let mut i: usize = 0;
    while i < profiles.len()
        invariant
            allocation_enabled,
            i <= profiles.len(),
            forall|k: int| 0 <= k < i ==> ineligibility(#[trigger] profiles@[k]) is Some,
        decreases profiles.len() - i,
    {
        if profiles[i].eligibility().is_ok() {
            assert(ineligibility(profiles@[i as int]) is None);
            return false;
        }
        i += 1;
    }
    true
}

/// What is shown when a resource has to be set up first.
pub fn setup_text(task: &str, width: u16) -> (r: String)
    ensures
        r@ == heading(task@, beside(width as int, 3)) + "\nSetup needed · your goal is preserved."@,
{
    let mut text = goal_heading(task, less(width, 3));
    text.push_str("\nSetup needed · your goal is preserved.");
    text
}

/// How the permission to run a goal on this machine is asked for.
pub fn permission_prompt(task: &str, width: u16) -> (r: String)
    ensures
        r@ == heading(task@, beside(width as int, 3))
            + "\n\nLocal execution is not sandboxed.\nAgent and checks use your permissions in a separate workspace.\nAllow this goal? [y/N]"@,
{
    let mut text = goal_heading(task, less(width, 3));
    text.push_str(
        "\n\nLocal execution is not sandboxed.\nAgent and checks use your permissions in a separate workspace.\nAllow this goal? [y/N]",
    );
    text
}

/// Whether an input gives the permission that was asked for.
pub open spec fn permits(input: Input) -> bool {
    input matches Input::Submit(answer) && (lower(answer@) == "y"@ || lower(answer@) == "yes"@)
}

/// Whether an input gives the permission that was asked for; anything else does not.
pub fn is_permission(input: &Input) -> (r: bool)
    ensures
        r == permits(*input),
{
    match input {
        Input::Submit(answer) => {
            let word = lowered(answer.as_str());
            same(word.as_str(), "y") || same(word.as_str(), "yes")
        },
        _ => false,
    }
}

/// What happens about checks before a goal runs.
#[derive(Debug, Clone, Copy, PartialEq, Eq, Structural)]
pub enum CheckStep {
    /// There are checks.
    Go,
    /// There are none, and none are known for the project: that is said, and the goal runs.
    Tell,
    /// There are none, and some can be chosen.
    Choose,
}

/// What happens about checks before a goal runs.
pub fn check_step(configured: usize, choices: usize) -> (r: CheckStep)
    ensures
        r == (if configured > 0 {
            CheckStep::Go
        } else if choices == 0 {
            CheckStep::Tell
        } else {
            CheckStep::Choose
        }),
{
    if configured > 0 {
        CheckStep::Go
    } else if choices == 0 {
        CheckStep::Tell
    } else {
        CheckStep::Choose
    }
}

/// What happens next with a goal whose work ended.
#[derive(Debug, Clone, PartialEq, Eq)]
pub enum GoalStep {
    Ask(QuestionCommand),
    Stopped,
    AutoApply,
    Review,
}

/// What happens next with a goal whose work ended. A result that waits for review is applied only where
/// the mode is on at this very moment.
pub fn goal_step(run: &RunRecord, auto_apply: bool) -> (r: GoalStep)
    ensures
        match waiting_question(*run) {
            Some(q) => r == GoalStep::Ask(
                QuestionCommand {
                    run_id: run.id,
                    question_id: q.id,
                    revision: q.revision,
                    generation: q.generation,
                },
            ),
            None => r == (if run.outcome.work_result != WorkResult::Ready || run.outcome.review
                != ReviewState::Pending {
                GoalStep::Stopped
            } else if auto_apply {
                GoalStep::AutoApply
            } else {
                GoalStep::Review
            }),
        },
{
    if let Some(command) = question_command(run) {
        return GoalStep::Ask(command);
    }
    if run.outcome.work_result != WorkResult::Ready || run.outcome.review != ReviewState::Pending {
        GoalStep::Stopped
    } else if auto_apply {
        GoalStep::AutoApply
    } else {
        GoalStep::Review
    }
}

/// A time of the calendar in UTC, written out as a format says. There is none for a time that the calendar
/// does not reach, or for a format that is not one.
pub uninterp spec fn clock_text(micros: i64, format: Seq<char>) -> Option<Seq<char>>;

/// `DelayedFormat::write_to` of `DateTime::format`, for the time in microseconds since the epoch and UTC:
/// the time written out as the format says. The text is named; it depends on the time and the format
/// alone, and there is none where the calendar does not reach the time or the format is not one.
#[verifier::external_body]
fn clock(micros: i64, format: &str) -> (r: Option<String>)
    ensures
        optional_view(r) == clock_text(micros, format@),
{
    let mut text = String::new();
    chrono::DateTime::from_timestamp_micros(micros)?.format(format).write_to(&mut text).ok()?;
    Some(text)
}

/// How a deadline is written.
pub open spec fn deadline_format() -> Seq<char> {
    "%Y-%m-%d %H:%M:%S UTC"@
}

/// How a question is answered at, given the text of its deadline.
pub fn answer_prompt(launch_line: &str, deadline: Option<&str>) -> (r: String)
    ensures
        r@ == launch_line@ + "\n"@ + (match deadline {
            Some(text) => "Deadline "@ + text@ + " · budget does not reset.\n"@,
            None => Seq::empty(),
        }) + "Your answer (Ctrl+C cancels this goal)"@,
{
    let mut text = launch_line.to_owned();
    text.push_str("\n");
    if let Some(at) = deadline {
        text.push_str("Deadline ");
        text.push_str(at);
        text.push_str(" · budget does not reset.\n");
    }
    assert(text@ =~= launch_line@ + "\n"@ + (match deadline {
        Some(t) => "Deadline "@ + t@ + " · budget does not reset.\n"@,
        None => Seq::empty(),
    }));
    text.push_str("Your answer (Ctrl+C cancels this goal)");
    text
}

/// How the question of a run is answered at. There is no text only where the deadline lies beyond the
/// calendar.
pub fn question_prompt(launch_line: &str, run: &RunRecord) -> (r: Option<String>)
    ensures
        match run.phase3 {
            Some(p) => match clock_text(p.deadline_at, deadline_format()) {
                Some(at) => r matches Some(text) && text@ == launch_line@ + "\n"@ + ("Deadline "@ + at
                    + " · budget does not reset.\n"@) + "Your answer (Ctrl+C cancels this goal)"@,
                None => r is None,
            },
            None => r matches Some(text) && text@ == launch_line@ + "\n"@ + Seq::<char>::empty()
                + "Your answer (Ctrl+C cancels this goal)"@,
        },
{
    match &run.phase3 {
        Some(p) => match clock(p.deadline_at, "%Y-%m-%d %H:%M:%S UTC") {
            Some(at) => Some(answer_prompt(launch_line, Some(at.as_str()))),
            None => None,
        },
        None => Some(answer_prompt(launch_line, None)),
    }
}

/// What becomes of a question.
#[derive(Debug, Clone, PartialEq, Eq)]
pub enum Answer {
    Give(String),
    AskAgain,
    Cancel,
}

/// What becomes of a question, by what was entered.
pub fn answer_step(input: Input) -> (r: Answer)
    ensures
        r == (match input {
            Input::Submit(text) => if trim(text@).len() > 0 {
                Answer::Give(text)
            } else {
                Answer::AskAgain
            },
            _ => Answer::Cancel,
        }),
{
    match input {
        Input::Submit(text) => {
            if !trimmed(text.as_str()).as_str().is_empty() {
                Answer::Give(text)
            } else {
                Answer::AskAgain
            }
        },
        _ => Answer::Cancel,
    }
}

/// Whether the details of stopped work are asked for.
pub fn wants_details(input: &Input) -> (r: bool)
    ensures
        r == (*input matches Input::Submit(action) && (trim(action@) == "i"@ || trim(action@)
            == "details"@)),
{
    match input {
        Input::Submit(action) => {
            let word = trimmed(action.as_str());
            same(word.as_str(), "i") || same(word.as_str(), "details")
        },
        _ => false,
    }
}

/// What follows an application under the auto-apply mode.
#[derive(Debug, Clone, PartialEq, Eq)]
pub enum AfterApply {
    /// It is shown; no review was performed.
    Done(String),
    /// A person reviews the result, with a notice of why.
    Review(String),
}

/// Why a result was skipped, in words.
pub open spec fn skip_words(reason: Seq<char>) -> Seq<char> {
    if reason == "verification_not_configured"@ {
        "no checks configured"@
    } else if reason == "verification_failed"@ {
        "verification failed"@
    } else if reason == "integration_checks_unavailable"@ {
        "checks cannot run on the merged tree"@
    } else {
        reason
    }
}

/// What follows an application under the auto-apply mode. Only an application that was made ends the
/// goal; everything else goes to a person.
pub fn after_auto_apply(outcome: &ApplyOutcome, run: &RunRecord, width: u16, ascii: bool) -> (r:
    AfterApply)
    ensures
        match *outcome {
            ApplyOutcome::Applied { report, validity } => r matches AfterApply::Done(text) && text@
                == run_text(*run, None, beside(width as int, 3), ascii)
                + "\nAuto-applied · review not performed"@ + (match validity {
                Some(v) => "\n"@ + coherence_words(v),
                None => Seq::empty(),
            }),
            ApplyOutcome::Skipped { reason } => r matches AfterApply::Review(text) && text@
                == "Auto-apply skipped: "@ + skip_words(reason@),
            ApplyOutcome::Blocked { reason, validity } => r matches AfterApply::Review(text)
                && text@ == "Auto-apply blocked: "@ + (match validity {
                Some(v) => coherence_words(v),
                None => reason@,
            }),
            ApplyOutcome::Failed { error } => r matches AfterApply::Review(text) && text@
                == "Auto-apply failed: "@ + clipped(error@, 240),
        },
{
    match outcome {
        ApplyOutcome::Applied { report: _, validity } => {
            let mut text = projection(run, None, less(width, 3), ascii);
            text.push_str("\nAuto-applied · review not performed");
            let ghost start = text@;
            if let Some(v) = validity {
                text.push_str("\n");
                text.push_str(coherence_text(v).as_str());
                assert(text@ =~= start + ("\n"@ + coherence_words(*v)));
            } else {
                assert(text@ =~= start + Seq::<char>::empty());
            }
            AfterApply::Done(text)
        },
        ApplyOutcome::Skipped { reason } => {
            let mut text = "Auto-apply skipped: ".to_owned();
            if same(reason.as_str(), "verification_not_configured") {
                text.push_str("no checks configured");
            } else if same(reason.as_str(), "verification_failed") {
                text.push_str("verification failed");
            } else if same(reason.as_str(), "integration_checks_unavailable") {
                text.push_str("checks cannot run on the merged tree");
            } else {
                text.push_str(reason.as_str());
            }
            AfterApply::Review(text)
        },
        ApplyOutcome::Blocked { reason, validity } => {
            let mut text = "Auto-apply blocked: ".to_owned();
            match validity {
                Some(v) => {
                    text.push_str(coherence_text(v).as_str());
                },
                None => {
                    text.push_str(reason.as_str());
                },
            }
            AfterApply::Review(text)
        },
        ApplyOutcome::Failed { error } => {
            let mut text = "Auto-apply failed: ".to_owned();
            text.push_str(clip(error.as_str(), 240).as_str());
            AfterApply::Review(text)
        },
    }
}

/// What a person does with a result that waits for review.
#[derive(Debug, Clone, Copy, PartialEq, Eq, Structural)]
pub enum ReviewAction {
    Inspect { external: bool },
    /// An external viewer was asked for where there is no screen for it.
    NoViewer,
    Details,
    /// The review is recorded; `then_auto_apply` turns the mode on once it is.
    Decide { accept: bool, then_auto_apply: bool },
    Leave,
    Unknown,
}

/// What an entered action means.
pub open spec fn review_meaning(action: Seq<char>, plain: bool) -> ReviewAction {
    let word = lower(trim(action));
    let external = word == "e"@ || word == "editor"@;
    if word == ""@ || word == "d"@ || word == "diff"@ || external {
        if plain && external {
            ReviewAction::NoViewer
        } else {
            ReviewAction::Inspect { external }
        }
    } else if word == "i"@ || word == "details"@ {
        ReviewAction::Details
    } else if word == "a"@ || word == "accept"@ || word == "aa"@ || word == "r"@ || word
        == "reject"@ {
        ReviewAction::Decide {
            accept: word == "a"@ || word == "accept"@ || word == "aa"@,
            then_auto_apply: word == "aa"@,
        }
    } else if word == "n"@ || word == "next"@ {
        ReviewAction::Leave
    } else {
        ReviewAction::Unknown
    }
}

/// What an entered action means.
pub fn review_action(action: &str, plain: bool) -> (r: ReviewAction)
    ensures
        r == review_meaning(action@, plain),
{
    let bare = trimmed(action);
    let low = lowered(bare.as_str());
    let word = low.as_str();
    let external = same(word, "e") || same(word, "editor");
    if same(word, "") || same(word, "d") || same(word, "diff") || external {
        if plain && external {
            ReviewAction::NoViewer
        } else {
            ReviewAction::Inspect { external }
        }
    } else if same(word, "i") || same(word, "details") {
        ReviewAction::Details
    } else if same(word, "a") || same(word, "accept") || same(word, "aa") || same(word, "r")
        || same(word, "reject") {
        ReviewAction::Decide {
            accept: same(word, "a") || same(word, "accept") || same(word, "aa"),
            then_auto_apply: same(word, "aa"),
        }
    } else if same(word, "n") || same(word, "next") {
        ReviewAction::Leave
    } else {
        ReviewAction::Unknown
    }
}

/// The notice behind an action that nothing came of.
pub fn review_notice(action: ReviewAction) -> (r: &'static str)
    ensures
        r@ == (match action {
            ReviewAction::NoViewer =>
                "External viewers require the interactive terminal. Use Review changes here."@,
            ReviewAction::Unknown =>
                "Choose Review changes, Open in editor, Accept & apply, Reject, Leave pending, or Details."@,
            _ => ""@,
        }),
{
    match action {
        ReviewAction::NoViewer =>
            "External viewers require the interactive terminal. Use Review changes here.",
        ReviewAction::Unknown =>
            "Choose Review changes, Open in editor, Accept & apply, Reject, Leave pending, or Details.",
        _ => "",
    }
}

/// The mode after a decision, and whether its result can be looked at again: the mode turns on only
/// behind an acceptance that was recorded.
pub fn after_decision(run: &RunRecord, then_auto_apply: bool, recorded: bool, auto_apply: bool) -> (r: (
    bool,
    bool,
))
    ensures
        r.0 == (auto_apply || then_auto_apply && recorded),
        r.1 == (run.outcome.review == ReviewState::Accepted || run.outcome.review
            == ReviewState::Rejected),
{
    (
        auto_apply || then_auto_apply && recorded,
        run.outcome.review == ReviewState::Accepted || run.outcome.review == ReviewState::Rejected,
    )
}

/// Only a deliberate word records a review: leaving the prompt, looking and unknown words never do.
pub proof fn only_deliberate_words_decide(action: Seq<char>, plain: bool)
    ensures
        review_meaning(action, plain) is Decide ==> trim(action).len() > 0,
        review_meaning(action, plain) matches ReviewAction::Decide { accept, then_auto_apply } ==> (
        then_auto_apply ==> accept),
{
    reveal_strlit("");
    if trim(action).len() == 0 {
        assert(lower(trim(action)) =~= ""@);
    }
}

/// A command to a session is never taken for a goal.
pub proof fn commands_are_never_goals(task: String, reviewed: bool, auto_apply: bool)
    requires
        trim(task@) == "/resources"@ || trim(task@) == "/checks"@ || auto_apply_command(task@) is Some,
    ensures
        !(session_meaning(Input::Submit(task), reviewed, auto_apply) is Goal),
{
}

} // verus!
