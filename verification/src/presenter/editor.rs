//! What keys and pasted text do to a draft, and where things are drawn around it. The draft itself is
//! held by a widget; only its lines are read here.

use vstd::prelude::*;

use crate::presenter::{cleaned, sanitize, Input, INPUT_LIMIT};
use crate::reviewer::{lossy, lossy_text};

use crate::text::{
    byte_len, bytes_in, chars_of, contains_text, join_lines, joined_lines, occurs, part,
    replace_text, replaced, same, texts,
};
use crate::orchestrator::attach::Release;

verus! {

/// A key of a keyboard.
#[derive(Debug, Clone, Copy, PartialEq, Eq, Structural)]
pub enum KeyCode {
    BackTab,
    Enter,
    Esc,
    Backspace,
    Up,
    Down,
    Left,
    Right,
    PageUp,
    PageDown,
    Home,
    Char(char),
    Other,
}

/// What happened to a key.
#[derive(Debug, Clone, Copy, PartialEq, Eq, Structural)]
pub enum KeyKind {
    Press,
    Repeat,
    Release,
}

/// A key, what happened to it, and what was held with it.
#[derive(Debug, Clone, Copy, PartialEq, Eq, Structural)]
pub struct Key {
    pub code: KeyCode,
    pub kind: KeyKind,
    pub control: bool,
    pub shift: bool,
    pub alt: bool,
}

impl Key {
    /// Whether the key is a letter that was pressed with Control.
    pub open spec fn controls(self, c: char) -> bool {
        self.control && self.code == KeyCode::Char(c)
    }

    /// Whether the key is a letter that was pressed with Control.
    pub fn is_control(&self, c: char) -> (r: bool)
        ensures
            r == self.controls(c),
    {
        self.control && (match self.code {
            KeyCode::Char(k) => k == c,
            _ => false,
        })
    }
}

/// What is done to a draft.
#[derive(Debug, Clone, PartialEq, Eq)]
pub enum Edit {
    /// Nothing.
    Keep,
    /// A line is broken at the cursor.
    Newline,
    /// The widget handles the key.
    Widget,
    /// The draft is left; what was submitted is a new draft from then on.
    Leave(Input),
}

/// The bytes of the lines of a draft.
pub open spec fn size(lines: Seq<String>) -> nat
    decreases lines.len(),
{
    if lines.len() == 0 {
        0
    } else {
        size(lines.drop_last()) + byte_len(lines.last()@)
    }
}

proof fn size_grows(lines: Seq<String>, i: int)
    requires
        0 <= i <= lines.len(),
    ensures
        size(lines.take(i)) <= size(lines),
    decreases lines.len() - i,
{
    if i < lines.len() {
        size_grows(lines, i + 1);
        assert(lines.take(i + 1).drop_last() =~= lines.take(i));
    } else {
        assert(lines.take(i) =~= lines);
    }
}

/// What is left of a limit beside a draft; nothing where the draft is beyond it.
fn room(lines: &Vec<String>, limit: usize) -> (r: Option<usize>)
    ensures
        match r {
            Some(left) => size(lines@) + left == limit,
            None => size(lines@) > limit,
        },
{
    let mut left: usize = limit;
    let mut i: usize = 0;
    assert(lines@.take(0) =~= Seq::empty());
    while i < lines.len()
        invariant
            i <= lines.len(),
            size(lines@.take(i as int)) + left == limit,
        decreases lines.len() - i,
    {
        assert(lines@.take(i as int + 1).drop_last() =~= lines@.take(i as int));
        let n = bytes_in(lines[i].as_str());
        if n > left {
            proof {
                size_grows(lines@, i as int + 1);
            }
            return None;
        }
        left = left - n;
        i += 1;
    }
    assert(lines@.take(lines@.len() as int) =~= lines@);
    Some(left)
}

/// Pasted text as it enters a draft: with plain line ends and without controls.
pub open spec fn pasted(value: Seq<char>) -> Seq<char> {
    cleaned(replaced(replaced(value, "\r\n"@, "\n"@), "\r"@, "\n"@))
}

/// What enters a draft when text is pasted: all of it, where it still fits, or nothing.
pub fn paste(lines: &Vec<String>, value: &str) -> (r: Option<String>)
    ensures
        match r {
            Some(text) => text@ == pasted(value@) && size(lines@) + byte_len(text@) <= INPUT_LIMIT,
            None => size(lines@) + byte_len(pasted(value@)) > INPUT_LIMIT,
        },
{
    proof {
        reveal_strlit("\r\n");
        reveal_strlit("\r");
    }
    let text = replace_text(value, "\r\n", "\n");
    let text = replace_text(text.as_str(), "\r", "\n");
    let text = sanitize(text.as_str());
    match room(lines, INPUT_LIMIT) {
        Some(left) => if bytes_in(text.as_str()) <= left {
            Some(text)
        } else {
            None
        },
        None => None,
    }
}

/// Whether every line of a draft is empty.
pub open spec fn all_empty(lines: Seq<String>) -> bool {
    forall|i: int| 0 <= i < lines.len() ==> (#[trigger] lines[i])@.len() == 0
}

fn nothing_written(lines: &Vec<String>) -> (r: bool)
    ensures
        r == all_empty(lines@),
{
    let mut i: usize = 0;
    while i < lines.len()
        invariant
            i <= lines.len(),
            forall|k: int| 0 <= k < i ==> (#[trigger] lines@[k])@.len() == 0,
        decreases lines.len() - i,
    {
        if !lines[i].as_str().is_empty() {
            assert(lines@[i as int]@.len() > 0);
            return false;
        }
        i += 1;
    }
    true
}

/// Whether a character may be typed.
pub open spec fn typed(c: char) -> bool {
    cleaned(seq![c]) == seq![c]
}

fn may_type(c: char) -> (r: bool)
    ensures
        r == typed(c),
{
    let mut text = String::new();
    text.push(c);
    assert(text@ =~= seq![c]);
    let clean = sanitize(text.as_str());
    same(clean.as_str(), text.as_str())
}

/// What a key does to a draft.
pub open spec fn edits(lines: Seq<String>, key: Key, r: Edit) -> bool {
    if key.kind == KeyKind::Release {
        r is Keep
    } else if key.code == KeyCode::BackTab {
        r == Edit::Leave(Input::ToggleAutoApply)
    } else if key.controls('c') {
        r == Edit::Leave(Input::Cancel)
    } else if key.controls('d') && all_empty(lines) {
        r == Edit::Leave(Input::Eof)
    } else if key.code == KeyCode::Enter && !key.shift && !key.alt {
        r matches Edit::Leave(Input::Submit(text)) && text@ == joined_lines(texts(lines))
    } else if key.code matches KeyCode::Char(c) && !typed(c) {
        r is Keep
    } else if key.code == KeyCode::Enter {
        r is Newline
    } else if size(lines) < INPUT_LIMIT || !(key.code is Char) {
        r is Widget
    } else {
        r is Keep
    }
}

/// What a key does to a draft. The key that toggles the mode never reaches the widget, and neither
/// submits nor edits.
pub fn press(lines: &Vec<String>, key: Key) -> (r: Edit)
    ensures
        edits(lines@, key, r),
{
    if let KeyKind::Release = key.kind {
        return Edit::Keep;
    }
    if let KeyCode::BackTab = key.code {
        return Edit::Leave(Input::ToggleAutoApply);
    }
    if key.is_control('c') {
        return Edit::Leave(Input::Cancel);
    }
    if key.is_control('d') && nothing_written(lines) {
        return Edit::Leave(Input::Eof);
    }
    let enter = match key.code {
        KeyCode::Enter => true,
        _ => false,
    };
    if enter && !key.shift && !key.alt {
        return Edit::Leave(Input::Submit(join_lines(lines)));
    }
    let letter = match key.code {
        KeyCode::Char(c) => {
            if !may_type(c) {
                return Edit::Keep;
            }
            true
        },
        _ => false,
    };
    if enter {
        return Edit::Newline;
    }
    let open = match room(lines, INPUT_LIMIT) {
        Some(left) => left > 0,
        None => false,
    };
    if open || !letter {
        Edit::Widget
    } else {
        Edit::Keep
    }
}

/// What a prompt remembers between its inputs.
#[derive(Debug, Clone, Copy, PartialEq, Eq, Structural)]
pub struct Prompt {
    /// No more input comes.
    pub closed: bool,
    pub auto_apply: bool,
}

impl Prompt {
    /// Takes an input of the editor, and hands on what answers the prompt: the toggle and mere changes
    /// never do.
    pub fn take(&mut self, input: Input) -> (r: Option<Input>)
        ensures
            final(self).closed == (old(self).closed || input is Eof),
            final(self).auto_apply == (if input is ToggleAutoApply {
                !old(self).auto_apply
            } else {
                old(self).auto_apply
            }),
            r == (if input is Changed || input is ToggleAutoApply {
                None
            } else {
                Some(input)
            }),
    {
        match input {
            Input::Changed => None,
            Input::ToggleAutoApply => {
                self.auto_apply = !self.auto_apply;
                None
            },
            Input::Eof => {
                self.closed = true;
                Some(Input::Eof)
            },
            other => Some(other),
        }
    }
}

/// What happens to a goal that was preserved when the next goal is asked for.
#[derive(Debug, Clone, PartialEq, Eq)]
pub enum Preserved {
    /// It is not asked for, or there is none.
    Keep,
    /// It is shown, to be entered again.
    Tell(String),
    /// It is the draft again.
    Insert,
}

/// What happens to a preserved goal at a prompt.
pub fn restore_draft(body: &str, draft: &str, plain: bool) -> (r: Preserved)
    ensures
        if !occurs(body@, "accomplish?"@) || draft@.len() == 0 {
            r is Keep
        } else if plain {
            r matches Preserved::Tell(text) && text@ == "Preserved goal: "@ + draft@
                + "\nEnter it again to submit explicitly."@
        } else {
            r is Insert
        },
{
    if !contains_text(body, "accomplish?") || draft.is_empty() {
        return Preserved::Keep;
    }
    if plain {
        let mut text = "Preserved goal: ".to_owned();
        text.push_str(draft);
        text.push_str("\nEnter it again to submit explicitly.");
        Preserved::Tell(text)
    } else {
        Preserved::Insert
    }
}

/// The keys that a prompt names.
pub fn prompt_hint(compose: bool) -> (r: &'static str)
    ensures
        r@ == (if compose {
            "Enter send · Alt+Enter newline · Ctrl+C cancel · Ctrl+D exit"@
        } else {
            "Enter choose · Ctrl+C back · Ctrl+D exit"@
        }),
{
    if compose {
        "Enter send · Alt+Enter newline · Ctrl+C cancel · Ctrl+D exit"
    } else {
        "Enter choose · Ctrl+C back · Ctrl+D exit"
    }
}

/// A text without the line ends that it ends with.
pub open spec fn without_ends(s: Seq<char>) -> Seq<char>
    decreases s.len(),
{
    if s.len() > 0 && (s.last() == '\r' || s.last() == '\n') {
        without_ends(s.drop_last())
    } else {
        s
    }
}

/// A line that was read from a terminal that edits lines itself.
pub fn read_line(bytes: &Vec<u8>) -> (r: Result<String, String>)
    ensures
        if bytes@.len() <= INPUT_LIMIT {
            r matches Ok(text) && text@ == without_ends(lossy_text(bytes@))
        } else {
            r matches Err(e) && e@ == "input exceeds 16 KiB"@
        },
{
    if bytes.len() > INPUT_LIMIT {
        return Err("input exceeds 16 KiB".to_owned());
    }
    let text = lossy(bytes);
    let chars = chars_of(text.as_str());
    let mut n = chars.len();
    assert(chars@.take(n as int) =~= chars@);
    while n > 0 && (chars[n - 1] == '\r' || chars[n - 1] == '\n')
        invariant
            n <= chars.len(),
            without_ends(chars@) == without_ends(chars@.take(n as int)),
        decreases n,
    {
        assert(chars@.take(n as int).drop_last() =~= chars@.take(n as int - 1));
        n = n - 1;
    }
    assert(chars@.take(n as int) =~= chars@.subrange(0, n as int));
    Ok(part(&chars, 0, n))
}

/// A rectangle of a screen.
#[derive(Debug, Clone, Copy, PartialEq, Eq, Structural)]
pub struct Rect {
    pub x: u16,
    pub y: u16,
    pub width: u16,
    pub height: u16,
}

impl Rect {
    /// Whether the rectangle ends within the coordinates of a screen.
    pub open spec fn wf(self) -> bool {
        self.x + self.width <= 65535 && self.y + self.height <= 65535
    }

    /// Whether the rectangle lies within another one.
    pub open spec fn within(self, outer: Rect) -> bool {
        &&& outer.x <= self.x && self.x + self.width <= outer.x + outer.width
        &&& outer.y <= self.y && self.y + self.height <= outer.y + outer.height
    }
}

/// What is drawn on, beside the margins of an area.
pub fn content_area(area: Rect) -> (r: Rect)
    requires
        area.wf(),
    ensures
        r == (if area.width > 4 {
            Rect { x: (area.x + 2) as u16, width: (area.width - 3) as u16, ..area }
        } else {
            area
        }),
        r.within(area),
        r.wf(),
{
    if area.width > 4 {
        Rect { x: area.x + 2, y: area.y, width: area.width - 3, height: area.height }
    } else {
        area
    }
}

/// Where a view is drawn: its body, the draft with the sign before it, and the hints.
#[derive(Debug, Clone, Copy, PartialEq, Eq, Structural)]
pub struct Layout {
    pub body: Rect,
    pub sign: Rect,
    pub draft: Rect,
    pub hints: Rect,
}

/// The smaller of two numbers.
pub open spec fn least(a: int, b: int) -> int {
    if a < b {
        a
    } else {
        b
    }
}

/// A difference, but no less than nothing.
pub open spec fn above(a: int, b: int) -> int {
    if a > b {
        a - b
    } else {
        0
    }
}

/// The rows of a draft: its lines, from one to three, with a row left for the body.
pub open spec fn draft_rows(lines: Option<usize>, height: int) -> int {
    match lines {
        Some(n) => least(
            if n < 1 {
                1
            } else {
                least(n as int, 3)
            },
            above(height, 1),
        ),
        None => 0,
    }
}

/// The rows of the hints: at most three, beside the draft.
pub open spec fn hint_rows(lines: usize, draft: int, height: int) -> int {
    least(least((lines % 65536) as int, 3), above(height, draft))
}

/// The rows of the body: what the draft and the hints leave.
pub open spec fn body_rows(lines: usize, draft: int, hints: int, height: int) -> int {
    least(lines as int, above(height, draft + hints))
}

fn smaller(a: u16, b: u16) -> (r: u16)
    ensures
        r == least(a as int, b as int),
{
    if a < b {
        a
    } else {
        b
    }
}

fn minus(a: u16, b: u16) -> (r: u16)
    ensures
        r == above(a as int, b as int),
{
    if a > b {
        a - b
    } else {
        0
    }
}

/// Where a view is drawn on an area, given how many lines each part takes at its width: the body on top,
/// then the draft, then the hints. Rows never overlap and never leave the area.
pub fn layout(area: Rect, draft: Option<usize>, hints: usize, body: usize) -> (r: Layout)
    requires
        area.wf(),
        area.x + 2 <= 65535,
    ensures
        ({
            let h = area.height as int;
            let d = draft_rows(draft, h);
            let k = hint_rows(hints, d, h);
            let b = body_rows(body, d, k, h);
            &&& r.body == (Rect { x: area.x, y: area.y, width: area.width, height: b as u16 })
            &&& r.sign == (Rect {
                x: area.x,
                y: (area.y + b) as u16,
                width: least(area.width as int, 2) as u16,
                height: d as u16,
            })
            &&& r.draft == (Rect {
                x: (area.x + 2) as u16,
                y: (area.y + b) as u16,
                width: above(area.width as int, 2) as u16,
                height: d as u16,
            })
            &&& r.hints == (Rect {
                x: area.x,
                y: (area.y + b + d) as u16,
                width: area.width,
                height: k as u16,
            })
            &&& b + d + k <= h
        }),
        r.body.within(area),
        r.sign.within(area),
        r.hints.within(area),
        area.width >= 2 ==> r.draft.within(area),
{
    let h = area.height;
    let d: u16 = match draft {
        Some(n) => smaller(
            if n < 1 {
                1
            } else if n < 3 {
                n as u16
            } else {
                3
            },
            minus(h, 1),
        ),
        None => 0,
    };
    let k = smaller(
        if hints % 65536 < 3 {
            (hints % 65536) as u16
        } else {
            3
        },
        minus(h, d),
    );
    let rest = minus(h, d + k);
    let b: u16 = if body < rest as usize {
        body as u16
    } else {
        rest
    };
    Layout {
        body: Rect { x: area.x, y: area.y, width: area.width, height: b },
        sign: Rect { x: area.x, y: area.y + b, width: smaller(area.width, 2), height: d },
        draft: Rect { x: area.x + 2, y: area.y + b, width: minus(area.width, 2), height: d },
        hints: Rect {
            x: area.x,
            y: area.y + b + d,
            width: area.width,
            height: smaller(minus(h, b + d), k),
        },
    }
}

/// A draft is always drawn, on at least one row, where the area has two.
pub proof fn drafts_are_always_visible(lines: usize, height: int)
    requires
        height >= 2,
    ensures
        1 <= draft_rows(Some(lines), height) <= 3,
{
}

} // verus!
