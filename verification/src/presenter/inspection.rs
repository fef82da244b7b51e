//! Looking at a change before deciding on it. This only selects what is shown; it decides nothing about
//! the delivery.

use vstd::prelude::*;

use crate::presenter::editor::{above, least, Key, KeyCode, KeyKind, Rect};
use crate::presenter::{
    beside, cells_of, cleaned, clip, clipped, display_width, dots, less, measure, measured, sanitize,
    together, Input, Measured,
};
use crate::reviewer::{
    lossy, lossy_text, preview, preview_budget, shown_bytes, ChangeEntry, ChangeKind, Preview,
};

use crate::text::{
    begins_with, byte_len, bytes_in, chars_of, contains_text, decimal, decimal_of, has_prefix,
    hexadecimal, hexadecimal_of, is_control, join_lines, joined_lines, lines, lower_char, lowercase,
    lowercase_of, occurs, part, put, replace_text, replaced, same, split_lines, texts,
    turns_direction,
};

verus! {

/// The bytes of one page of a change.
pub const PAGE_BYTES: usize = 32_768;

/// The first of the last clusters that fit beside three dots, where `cells` are taken already.
pub open spec fn tail_from(parts: Seq<(Seq<char>, nat)>, width: int, n: int, cells: int) -> int
    decreases n,
{
    if n <= 0 || n > parts.len() || cells + parts[n - 1].1 + 3 > width {
        n
    } else {
        tail_from(parts, width, n - 1, cells + parts[n - 1].1)
    }
}

/// A text that takes `cells`, cut between its clusters to a width from its end.
pub open spec fn cut_from_end(
    text: Seq<char>,
    cells: int,
    parts: Seq<(Seq<char>, nat)>,
    width: int,
) -> Seq<char> {
    if cells <= width {
        text
    } else {
        dots(width) + together(
            parts.skip(tail_from(parts, width, parts.len() as int, 0)).map_values(
                |p: (Seq<char>, nat)| p.0,
            ),
        )
    }
}

/// A text cut to a width from its end.
pub open spec fn tail_clipped(text: Seq<char>, width: int) -> Seq<char> {
    cut_from_end(text, display_width(text) as int, measured(text), width)
}

/// A text that was measured, cut between its clusters to a width from its end.
pub fn cut_end(text: &str, m: &Measured, width: u16) -> (r: String)
    ensures
        r@ == cut_from_end(text@, m.cells as int, cells_of(m.clusters@), width as int),
{
    let limit: usize = width as usize;
    if m.cells <= limit {
        return text.to_owned();
    }
    let parts = &m.clusters;
    let ghost all = cells_of(parts@);
    let mut cells: usize = 0;
    let mut n = parts.len();
    let mut full = false;
    while n > 0 && !full
        invariant
            n <= parts.len(),
            all == cells_of(parts@),
            limit == width,
            cells <= limit,
            tail_from(all, limit as int, all.len() as int, 0) == (if full {
                n as int
            } else {
                tail_from(all, limit as int, n as int, cells as int)
            }),
        decreases
                n,
                (if full {
                    0int
                } else {
                    1int
                }),
    {
        assert(all[n as int - 1] == (parts@[n as int - 1].text@, parts@[n as int - 1].cells as nat));
        let w = parts[n - 1].cells;
        if limit < 3 || w > limit - 3 || cells > limit - 3 - w {
            full = true;
        } else {
            cells = cells + w;
            n = n - 1;
        }
    }
    let mut out = if width == 0 {
        "".to_owned()
    } else if width == 1 {
        ".".to_owned()
    } else if width == 2 {
        "..".to_owned()
    } else {
        "...".to_owned()
    };
    let ghost rest = all.skip(n as int).map_values(|p: (Seq<char>, nat)| p.0);
    let ghost start = out@;
    let mut i: usize = n;
    assert(rest.take(0) =~= Seq::empty());
    assert(out@ =~= start + together(rest.take(0)));
    while i < parts.len()
        invariant
            n <= i <= parts.len(),
            all == cells_of(parts@),
            rest == all.skip(n as int).map_values(|p: (Seq<char>, nat)| p.0),
            out@ == start + together(rest.take(i - n)),
        decreases parts.len() - i,
    {
        out.push_str(parts[i].text.as_str());
        proof {
            let now = rest.take(i - n + 1);
            assert(now.drop_last() =~= rest.take(i - n));
            assert(now.last() == parts@[i as int].text@);
            assert(out@ =~= start + together(now));
        }
        i += 1;
    }
    assert(rest.take(parts@.len() - n) =~= rest);
    out
}

/// A text cut to a width from its end: of a path the file name is what matters.
pub fn tail_clip(text: &str, width: u16) -> (r: String)
    ensures
        r@ == tail_clipped(text@, width as int),
{
    let m = measure(text);
    cut_end(text, &m, width)
}

/// How a character of a path is shown: controls and characters that turn the direction as escapes.
pub open spec fn label_char(c: char) -> Seq<char> {
    if is_control(c) || turns_direction(c) {
        if c == '\t' {
            seq!['\\', 't']
        } else if c == '\r' {
            seq!['\\', 'r']
        } else if c == '\n' {
            seq!['\\', 'n']
        } else {
            seq!['\\', 'u', '{'] + hexadecimal(c as nat) + seq!['}']
        }
    } else {
        seq![c]
    }
}

/// A path as it is shown, character by character.
pub open spec fn label_text(path: Seq<char>) -> Seq<char> {
    together(path.map_values(|c: char| label_char(c)))
}

fn push_label(out: &mut String, c: char)
    ensures
        final(out)@ == old(out)@ + label_char(c),
{
    let n = c as u32;
    let ghost before = out@;
    if n <= 0x1f || (n >= 0x7f && n <= 0x9f) || (n >= 0x202a && n <= 0x202e) || (n >= 0x2066 && n
        <= 0x2069) {
        out.push('\\');
        if c == '\t' {
            out.push('t');
        } else if c == '\r' {
            out.push('r');
        } else if c == '\n' {
            out.push('n');
        } else {
            out.push('u');
            out.push('{');
            assert(out@ =~= before + seq!['\\', 'u', '{']);
            out.push_str(hexadecimal_of(n).as_str());
            out.push('}');
        }
    } else {
        out.push(c);
    }
    assert(out@ =~= before + label_char(c));
}

/// A path as it is shown: Unicode stays, controls and characters that turn the direction are escaped.
pub fn path_label(path: &Vec<u8>) -> (r: String)
    ensures
        r@ == label_text(lossy_text(path@)),
{
    let text = lossy(path);
    let chars = chars_of(text.as_str());
    let ghost all = chars@.map_values(|c: char| label_char(c));
    let mut out = String::new();
    let mut i: usize = 0;
    assert(all.take(0) =~= Seq::empty());
    while i < chars.len()
        invariant
            i <= chars.len(),
            all == chars@.map_values(|c: char| label_char(c)),
            out@ == together(all.take(i as int)),
        decreases chars.len() - i,
    {
        push_label(&mut out, chars[i]);
        assert(all.take(i as int + 1).drop_last() =~= all.take(i as int));
        assert(all.take(i as int + 1).last() == label_char(chars@[i as int]));
        i += 1;
    }
    assert(all.take(chars@.len() as int) =~= all);
    out
}

proof fn digits_are_plain(n: nat)
    ensures
        forall|i: int|
            0 <= i < hexadecimal(n).len() ==> !is_control(#[trigger] hexadecimal(n)[i])
                && !turns_direction(hexadecimal(n)[i]),
    decreases n,
{
    if n >= 16 {
        digits_are_plain(n / 16);
        let head = hexadecimal(n / 16);
        let all = hexadecimal(n);
        assert forall|i: int| 0 <= i < all.len() implies !is_control(#[trigger] all[i])
            && !turns_direction(all[i]) by {
            if i < head.len() {
                assert(all[i] == head[i]);
            }
        }
    }
}

/// The name of a file cannot control the terminal, nor turn the direction of what stands around it.
pub proof fn labels_cannot_control_the_terminal(path: Seq<char>, i: int)
    requires
        0 <= i < label_text(path).len(),
    ensures
        !is_control(label_text(path)[i]),
        !turns_direction(label_text(path)[i]),
    decreases path.len(),
{
    let all = path.map_values(|c: char| label_char(c));
    if path.len() > 0 {
        let head = path.drop_last();
        let c = path.last();
        assert(all.drop_last() =~= head.map_values(|c: char| label_char(c)));
        assert(label_text(path) == label_text(head) + label_char(c));
        if i < label_text(head).len() {
            labels_cannot_control_the_terminal(head, i);
        } else {
            let k = i - label_text(head).len();
            assert(label_text(path)[i] == label_char(c)[k]);
            digits_are_plain(c as nat);
            if label_char(c).len() > 2 && 3 <= k < 3 + hexadecimal(c as nat).len() {
                assert(label_char(c)[k] == hexadecimal(c as nat)[k - 3]);
            }
        }
    }
}

/// Whether a line of a patch only says which file it is of.
pub open spec fn is_file_header(line: Seq<char>) -> bool {
    begins_with(line, "diff --git "@) || begins_with(line, "index "@) || begins_with(line, "--- "@)
        || begins_with(line, "+++ "@)
}

/// The lines that do not say which file they are of.
pub open spec fn changed_lines(all: Seq<Seq<char>>) -> Seq<Seq<char>>
    decreases all.len(),
{
    if all.len() == 0 {
        Seq::empty()
    } else if is_file_header(all.last()) {
        changed_lines(all.drop_last())
    } else {
        changed_lines(all.drop_last()).push(all.last())
    }
}

/// A patch without what only says which file it is of, and without controls.
pub open spec fn compacted(text: Seq<char>) -> Seq<char> {
    joined_lines(changed_lines(lines(cleaned(text))))
}

/// A patch without what only says which file it is of, and without controls.
pub fn compact_patch(text: &str) -> (r: String)
    ensures
        r@ == compacted(text@),
{
    let clean = sanitize(text);
    let all = split_lines(clean.as_str());
    let ghost whole = lines(cleaned(text@));
    let mut out: Vec<String> = Vec::new();
    let mut i: usize = 0;
    assert(whole.take(0) =~= Seq::empty());
    assert(texts(out@) =~= Seq::empty());
    while i < all.len()
        invariant
            i <= all.len(),
            texts(all@) == whole,
            texts(out@) == changed_lines(whole.take(i as int)),
        decreases all.len() - i,
    {
        assert(whole.take(i as int + 1).drop_last() =~= whole.take(i as int));
        assert(whole.take(i as int + 1).last() == all@[i as int]@);
        let line = all[i].as_str();
        if !(has_prefix(line, "diff --git ") || has_prefix(line, "index ") || has_prefix(
            line,
            "--- ",
        ) || has_prefix(line, "+++ ")) {
            put(&mut out, line);
        }
        i += 1;
    }
    assert(whole.take(all@.len() as int) =~= whole);
    join_lines(&out)
}

/// Whether a change is small enough to be shown beside the decision.
pub open spec fn is_tiny(e: ChangeEntry) -> bool {
    !e.binary && e.bytes <= 4096 && e.hunks@.len() <= 1 && count(e.additions) + count(e.deletions)
        <= 4
}

/// A number that may be unknown, which then counts nothing.
pub open spec fn count(n: Option<u64>) -> int {
    match n {
        Some(n) => n as int,
        None => 0,
    }
}

fn counted(n: Option<u64>) -> (r: u64)
    ensures
        r == count(n),
{
    match n {
        Some(n) => n,
        None => 0,
    }
}

/// Whether a line is added or removed.
pub open spec fn is_change(line: Seq<char>) -> bool {
    line.len() > 0 && (line[0] == '+' || line[0] == '-')
}

/// The first `n` lines that are added or removed.
pub open spec fn first_changes(all: Seq<Seq<char>>, n: int) -> Seq<Seq<char>>
    decreases all.len(),
{
    if all.len() == 0 || n <= 0 {
        Seq::empty()
    } else if is_change(all[0]) {
        seq![all[0]] + first_changes(all.skip(1), n - 1)
    } else {
        first_changes(all.skip(1), n)
    }
}

/// What is shown of a change beside the decision, given its patch.
pub open spec fn preview_text(path: Seq<char>, patch: Seq<char>) -> Seq<char> {
    let changes = joined_lines(first_changes(lines(compacted(patch)), 4));
    if changes.len() == 0 {
        Seq::empty()
    } else {
        "Preview · "@ + label_text(path) + "\n"@ + changes
    }
}

/// What is shown of a change beside the decision, given its patch.
pub fn short_preview(path: &Vec<u8>, patch: &str) -> (r: String)
    ensures
        r@ == preview_text(lossy_text(path@), patch@),
{
    let compact = compact_patch(patch);
    let all = split_lines(compact.as_str());
    let ghost whole = lines(compacted(patch@));
    let mut out: Vec<String> = Vec::new();
    let mut i: usize = 0;
    assert(whole.skip(0) =~= whole);
    assert(texts(out@) + first_changes(whole, 4) =~= first_changes(whole, 4));
    while i < all.len() && out.len() < 4
        invariant
            i <= all.len(),
            out.len() <= 4,
            texts(all@) == whole,
            first_changes(whole, 4) == texts(out@) + first_changes(
                whole.skip(i as int),
                4 - out@.len(),
            ),
        decreases all.len() - i,
    {
        assert(whole.skip(i as int)[0] == all@[i as int]@);
        assert(whole.skip(i as int).skip(1) =~= whole.skip(i as int + 1));
        let chars = chars_of(all[i].as_str());
        let ghost before = texts(out@);
        if chars.len() > 0 && (chars[0] == '+' || chars[0] == '-') {
            put(&mut out, all[i].as_str());
            assert(out@.len() == texts(out@).len());
            assert(before.len() == out@.len() - 1);
            assert(first_changes(whole, 4) =~= texts(out@) + first_changes(
                whole.skip(i as int + 1),
                4 - out@.len(),
            ));
        }
        i += 1;
    }
    assert(texts(out@) =~= first_changes(whole, 4));
    let changes = join_lines(&out);
    if changes.as_str().is_empty() {
        return String::new();
    }
    let mut text = "Preview · ".to_owned();
    text.push_str(path_label(path).as_str());
    text.push_str("\n");
    text.push_str(changes.as_str());
    text
}

/// What is shown of a change beside the decision: the only file, where its change is tiny. The ranges of
/// an entry lie within the range of file offsets.
pub fn tiny_preview(entries: &Vec<ChangeEntry>, patch: &Vec<u8>) -> (r: String)
    requires
        forall|k: int, i: int|
            0 <= k < entries@.len() && 0 <= i < entries@[k].ranges@.len() ==> (
            #[trigger] entries@[k].ranges@[i]).0 + entries@[k].ranges@[i].1 <= u64::MAX,
    ensures
        if entries@.len() == 1 && is_tiny(entries@[0]) {
            r@ == preview_text(
                lossy_text(entries@[0].path@),
                lossy_text(
                    shown_bytes(patch@, entries@[0].ranges@, 0, 0, preview_budget(4096)),
                ),
            )
        } else {
            r@.len() == 0
        },
{
    if entries.len() != 1 {
        return String::new();
    }
    let e = &entries[0];
    let added = counted(e.additions);
    let removed = counted(e.deletions);
    if e.binary || e.bytes > 4096 || e.hunks.len() > 1 || added > 4 || removed > 4 - added {
        return String::new();
    }
    let shown = preview(e, patch, 0, 4096);
    short_preview(&e.path, shown.text.as_str())
}

/// Which part of a change is looked at.
#[derive(Debug, Clone, PartialEq, Eq)]
pub struct ReviewView {
    pub selected: usize,
    pub filter: String,
    /// A file is looked at, rather than the list.
    pub file: bool,
    pub offset: u64,
    pub row: usize,
    pub column: u16,
}

impl ReviewView {
    /// The list from its beginning, with nothing filtered out.
    pub fn new() -> (r: Self)
        ensures
            r.selected == 0,
            r.filter@.len() == 0,
            !r.file,
            r.offset == 0,
            r.row == 0,
            r.column == 0,
    {
        ReviewView { selected: 0, filter: String::new(), file: false, offset: 0, row: 0, column: 0 }
    }
}

/// Whether a filter, in lower case, lets an entry through: it occurs in its path or in the one before.
pub open spec fn passes(e: ChangeEntry, filter: Seq<char>) -> bool {
    occurs(lowercase(lossy_text(e.path@)), filter) || (e.previous_path matches Some(p) && occurs(
        lowercase(lossy_text(p@)),
        filter,
    ))
}

/// The positions below `n` of the entries that a filter lets through.
pub open spec fn passing(entries: Seq<ChangeEntry>, filter: Seq<char>, n: int) -> Seq<usize>
    decreases n,
{
    if n <= 0 {
        Seq::empty()
    } else if passes(entries[n - 1], filter) {
        passing(entries, filter, n - 1).push((n - 1) as usize)
    } else {
        passing(entries, filter, n - 1)
    }
}

fn passes_filter(e: &ChangeEntry, filter: &str) -> (r: bool)
    ensures
        r == passes(*e, filter@),
{
    let path = lossy(&e.path);
    let small = lowercase_of(path.as_str());
    if contains_text(small.as_str(), filter) {
        return true;
    }
    match &e.previous_path {
        Some(p) => {
            let path = lossy(p);
            let small = lowercase_of(path.as_str());
            contains_text(small.as_str(), filter)
        },
        None => false,
    }
}

/// The positions of the entries that a filter lets through, in order; letters count the same in either
/// case.
pub fn visible_entries(entries: &Vec<ChangeEntry>, filter: &str) -> (r: Vec<usize>)
    ensures
        r@ == passing(entries@, lowercase(filter@), entries@.len() as int),
{
    let small = lowercase_of(filter);
    let mut out: Vec<usize> = Vec::new();
    let mut i: usize = 0;
    while i < entries.len()
        invariant
            i <= entries.len(),
            small@ == lowercase(filter@),
            out@ == passing(entries@, small@, i as int),
        decreases entries.len() - i,
    {
        if passes_filter(&entries[i], small.as_str()) {
            out.push(i);
        }
        i += 1;
    }
    out
}

/// Every entry that is listed exists and passes the filter, and every entry that passes is listed, in
/// order.
pub proof fn the_list_is_what_passes(entries: Seq<ChangeEntry>, filter: Seq<char>, n: int)
    requires
        0 <= n <= entries.len() <= usize::MAX,
    ensures
        forall|k: int|
            0 <= k < passing(entries, filter, n).len() ==> (#[trigger] passing(entries, filter, n)[k])
                < n && passes(entries[passing(entries, filter, n)[k] as int], filter),
        forall|i: int|
            0 <= i < n && passes(#[trigger] entries[i], filter) ==> passing(
                entries,
                filter,
                n,
            ).contains(i as usize),
        forall|j: int, k: int|
            0 <= j < k < passing(entries, filter, n).len() ==> #[trigger] passing(
                entries,
                filter,
                n,
            )[j] < #[trigger] passing(entries, filter, n)[k],
    decreases n,
{
    if n > 0 {
        the_list_is_what_passes(entries, filter, n - 1);
        let head = passing(entries, filter, n - 1);
        let all = passing(entries, filter, n);
        if passes(entries[n - 1], filter) {
            assert(all[head.len() as int] == (n - 1) as usize);
            assert forall|i: int| 0 <= i < n && passes(#[trigger] entries[i], filter) implies all.contains(
                i as usize,
            ) by {
                if i < n - 1 {
                    let k = choose|k: int| 0 <= k < head.len() && head[k] == i as usize;
                    assert(all[k] == i as usize);
                } else {
                    assert(all[head.len() as int] == i as usize);
                }
            }
            assert forall|k: int| 0 <= k < all.len() implies (#[trigger] all[k]) < n && passes(
                entries[all[k] as int],
                filter,
            ) by {
                if k < head.len() {
                    assert(all[k] == head[k]);
                }
            }
            assert forall|j: int, k: int| 0 <= j < k < all.len() implies #[trigger] all[j]
                < #[trigger] all[k] by {
                assert(all[j] == head[j]);
                if k < head.len() {
                    assert(all[k] == head[k]);
                }
            }
        }
    }
}

/// Where an entry stands in the list, from `i` on.
pub open spec fn place_from(visible: Seq<usize>, selected: usize, i: int) -> Option<int>
    decreases visible.len() - i,
{
    if i < 0 || i >= visible.len() {
        None
    } else if visible[i] == selected {
        Some(i)
    } else {
        place_from(visible, selected, i + 1)
    }
}

/// Where the selected entry stands in the list; the beginning, where it is not in it.
pub open spec fn place(visible: Seq<usize>, selected: usize) -> int {
    match place_from(visible, selected, 0) {
        Some(i) => i,
        None => 0,
    }
}

proof fn places_exist(visible: Seq<usize>, selected: usize, i: int)
    requires
        0 <= i <= visible.len(),
    ensures
        match place_from(visible, selected, i) {
            Some(k) => i <= k < visible.len() && visible[k] == selected,
            None => forall|k: int| i <= k < visible.len() ==> visible[k] != selected,
        },
    decreases visible.len() - i,
{
    if i < visible.len() && visible[i] != selected {
        places_exist(visible, selected, i + 1);
    }
}

fn find_place(visible: &Vec<usize>, selected: usize) -> (r: Option<usize>)
    ensures
        match r {
            Some(i) => place_from(visible@, selected, 0) == Some(i as int) && i < visible.len(),
            None => place_from(visible@, selected, 0) is None,
        },
{
    let mut i: usize = 0;
    while i < visible.len()
        invariant
            i <= visible.len(),
            place_from(visible@, selected, 0) == place_from(visible@, selected, i as int),
        decreases visible.len() - i,
    {
        if visible[i] == selected {
            return Some(i);
        }
        i += 1;
    }
    None
}

/// Selects the first entry of the list where the selected one is not in it; an empty list changes
/// nothing.
pub fn keep_selection(view: &mut ReviewView, visible: &Vec<usize>)
    ensures
        *final(view) == (if place_from(visible@, old(view).selected, 0) is None && visible@.len() > 0 {
            ReviewView { selected: visible@[0], ..*old(view) }
        } else {
            *old(view)
        }),
        visible@.len() > 0 ==> visible@.contains(final(view).selected),
{
    proof {
        places_exist(visible@, view.selected, 0);
    }
    if visible.len() > 0 && find_place(visible, view.selected).is_none() {
        view.selected = visible[0];
        assert(visible@[0] == view.selected);
    }
}

/// The page of a change that is looked at.
#[derive(Debug, Clone, Copy, PartialEq, Eq, Structural)]
pub struct Page {
    pub truncated: bool,
    pub next_offset: u64,
}

/// What a key leads to.
#[derive(Debug, Clone, Copy, PartialEq, Eq, Structural)]
pub enum InspectStep {
    Stay,
    Back,
    /// Back, and no more input comes.
    Close,
    /// The selected entry is opened outside: as it is, or in a pager.
    External { pager: bool },
}

/// The first hunk behind an offset, from `i` on.
pub open spec fn next_hunk(hunks: Seq<u64>, offset: u64, i: int) -> Option<u64>
    decreases hunks.len() - i,
{
    if i < 0 || i >= hunks.len() {
        None
    } else if hunks[i] > offset {
        Some(hunks[i])
    } else {
        next_hunk(hunks, offset, i + 1)
    }
}

/// The last hunk before an offset, among the first `n`.
pub open spec fn previous_hunk(hunks: Seq<u64>, offset: u64, n: int) -> Option<u64>
    decreases n,
{
    if n <= 0 || n > hunks.len() {
        None
    } else if hunks[n - 1] < offset {
        Some(hunks[n - 1])
    } else {
        previous_hunk(hunks, offset, n - 1)
    }
}

fn find_next_hunk(hunks: &Vec<u64>, offset: u64) -> (r: Option<u64>)
    ensures
        r == next_hunk(hunks@, offset, 0),
{
    let mut i: usize = 0;
    while i < hunks.len()
        invariant
            i <= hunks.len(),
            next_hunk(hunks@, offset, 0) == next_hunk(hunks@, offset, i as int),
        decreases hunks.len() - i,
    {
        if hunks[i] > offset {
            return Some(hunks[i]);
        }
        i += 1;
    }
    None
}

fn find_previous_hunk(hunks: &Vec<u64>, offset: u64) -> (r: Option<u64>)
    ensures
        r == previous_hunk(hunks@, offset, hunks@.len() as int),
{
    let mut n = hunks.len();
    while n > 0
        invariant
            n <= hunks.len(),
            previous_hunk(hunks@, offset, hunks@.len() as int) == previous_hunk(
                hunks@,
                offset,
                n as int,
            ),
        decreases n,
    {
        if hunks[n - 1] < offset {
            return Some(hunks[n - 1]);
        }
        n = n - 1;
    }
    None
}

/// Whether a key moves down.
pub open spec fn moves_down(code: KeyCode) -> bool {
    code == KeyCode::Down || code == KeyCode::Char('j')
}

/// Whether a key moves up.
pub open spec fn moves_up(code: KeyCode) -> bool {
    code == KeyCode::Up || code == KeyCode::Char('k')
}

/// The view with another entry selected, if there is one at that place of the list.
pub open spec fn selecting(view: ReviewView, visible: Seq<usize>, at: int) -> ReviewView {
    if 0 <= at < visible.len() {
        ReviewView { selected: visible[at], ..view }
    } else {
        view
    }
}

/// The last row of so many lines.
pub open spec fn last_row(lines: usize) -> int {
    above(lines as int, 1)
}

/// The view after a key, while nothing is typed.
pub open spec fn moved(
    view: ReviewView,
    code: KeyCode,
    visible: Seq<usize>,
    page: Option<Page>,
    lines: usize,
    hunks: Option<Seq<u64>>,
) -> ReviewView {
    let at = place(visible, view.selected);
    if code == KeyCode::Esc && view.file {
        ReviewView { file: false, row: 0, ..view }
    } else if code == KeyCode::Enter && !view.file && visible.len() > 0 {
        ReviewView { file: true, row: 0, offset: 0, column: 0, ..view }
    } else if moves_down(code) && !view.file {
        selecting(view, visible, least(at + 1, above(visible.len() as int, 1)))
    } else if moves_up(code) && !view.file {
        selecting(view, visible, above(at, 1))
    } else if moves_down(code) {
        ReviewView { row: least(view.row + 1, last_row(lines)) as usize, ..view }
    } else if moves_up(code) {
        ReviewView { row: above(view.row as int, 1) as usize, ..view }
    } else if code == KeyCode::PageDown {
        ReviewView { row: least(view.row + 15, last_row(lines)) as usize, ..view }
    } else if code == KeyCode::PageUp {
        ReviewView { row: above(view.row as int, 15) as usize, ..view }
    } else if code == KeyCode::Right || code == KeyCode::Char('l') {
        ReviewView { column: least(view.column + 8, 65535) as u16, ..view }
    } else if code == KeyCode::Left || code == KeyCode::Char('h') {
        ReviewView { column: above(view.column as int, 8) as u16, ..view }
    } else if code == KeyCode::Home {
        ReviewView { offset: 0, row: 0, column: 0, ..view }
    } else if code == KeyCode::Char(' ') && view.file && (page matches Some(p) && p.truncated) {
        ReviewView { offset: page->0.next_offset, row: 0, ..view }
    } else if code == KeyCode::Char('n') && view.file && (hunks matches Some(h) && next_hunk(
        h,
        view.offset,
        0,
    ) is Some) {
        ReviewView { offset: next_hunk(hunks->0, view.offset, 0)->0, row: 0, ..view }
    } else if code == KeyCode::Char('p') && view.file && (hunks matches Some(h) && previous_hunk(
        h,
        view.offset,
        h.len() as int,
    ) is Some) {
        ReviewView {
            offset: previous_hunk(hunks->0, view.offset, hunks->0.len() as int)->0,
            row: 0,
            ..view
        }
    } else if code == KeyCode::Char(']') && view.file && at + 1 < visible.len() {
        ReviewView { selected: visible[at + 1], offset: 0, row: 0, column: 0, ..view }
    } else if code == KeyCode::Char('[') && view.file && visible.len() > 0 {
        ReviewView { selected: visible[above(at, 1)], offset: 0, row: 0, column: 0, ..view }
    } else {
        view
    }
}

/// What a key leads to, while nothing is typed.
pub open spec fn leads_to(view: ReviewView, code: KeyCode) -> InspectStep {
    if code == KeyCode::Char('q') || (code == KeyCode::Esc && !view.file) {
        InspectStep::Back
    } else if code == KeyCode::Char('e') {
        InspectStep::External { pager: false }
    } else if code == KeyCode::Char('v') {
        InspectStep::External { pager: true }
    } else {
        InspectStep::Stay
    }
}

/// The sequence of hunks behind an optional reference.
pub open spec fn hunks_of(hunks: Option<&Vec<u64>>) -> Option<Seq<u64>> {
    match hunks {
        Some(h) => Some(h@),
        None => None,
    }
}

/// Moves in the list or in the file that is looked at.
fn steer(
    view: &mut ReviewView,
    code: KeyCode,
    visible: &Vec<usize>,
    page: Option<Page>,
    lines: usize,
    hunks: Option<&Vec<u64>>,
)
    ensures
        *final(view) == moved(*old(view), code, visible@, page, lines, hunks_of(hunks)),
{
    let at: usize = match find_place(visible, view.selected) {
        Some(i) => i,
        None => 0,
    };
    let end: usize = if lines > 1 {
        lines - 1
    } else {
        0
    };
    match code {
        KeyCode::Esc => {
            if view.file {
                view.file = false;
                view.row = 0;
            }
        },
        KeyCode::Enter => {
            if !view.file && visible.len() > 0 {
                view.file = true;
                view.row = 0;
                view.offset = 0;
                view.column = 0;
            }
        },
        KeyCode::Down | KeyCode::Char('j') => {
            if view.file {
                view.row = if view.row < end {
                    view.row + 1
                } else {
                    end
                };
            } else if visible.len() > 0 {
                let next: usize = if at < visible.len() - 1 {
                    at + 1
                } else {
                    visible.len() - 1
                };
                view.selected = visible[next];
            }
        },
        KeyCode::Up | KeyCode::Char('k') => {
            if view.file {
                view.row = if view.row > 1 {
                    view.row - 1
                } else {
                    0
                };
            } else if visible.len() > 0 {
                let next: usize = if at > 1 {
                    at - 1
                } else {
                    0
                };
                view.selected = visible[next];
            }
        },
        KeyCode::PageDown => {
            view.row = if end >= 15 && view.row <= end - 15 {
                view.row + 15
            } else {
                end
            };
        },
        KeyCode::PageUp => {
            view.row = if view.row > 15 {
                view.row - 15
            } else {
                0
            };
        },
        KeyCode::Right | KeyCode::Char('l') => {
            view.column = if view.column < 65527 {
                view.column + 8
            } else {
                65535
            };
        },
        KeyCode::Left | KeyCode::Char('h') => {
            view.column = if view.column > 8 {
                view.column - 8
            } else {
                0
            };
        },
        KeyCode::Home => {
            view.offset = 0;
            view.row = 0;
            view.column = 0;
        },
        KeyCode::Char(' ') => {
            if view.file {
                if let Some(p) = page {
                    if p.truncated {
                        view.offset = p.next_offset;
                        view.row = 0;
                    }
                }
            }
        },
        KeyCode::Char('n') => {
            if view.file {
                if let Some(h) = hunks {
                    if let Some(next) = find_next_hunk(h, view.offset) {
                        view.offset = next;
                        view.row = 0;
                    }
                }
            }
        },
        KeyCode::Char('p') => {
            if view.file {
                if let Some(h) = hunks {
                    if let Some(next) = find_previous_hunk(h, view.offset) {
                        view.offset = next;
                        view.row = 0;
                    }
                }
            }
        },
        KeyCode::Char(']') => {
            if view.file && visible.len() > 0 && at < visible.len() - 1 {
                view.selected = visible[at + 1];
                view.offset = 0;
                view.row = 0;
                view.column = 0;
            }
        },
        KeyCode::Char('[') => {
            if view.file && visible.len() > 0 {
                view.selected = visible[if at > 1 {
                    at - 1
                } else {
                    0
                }];
                view.offset = 0;
                view.row = 0;
                view.column = 0;
            }
        },
        _ => {},
    }
}

/// A filter after a key, while it is typed.
pub open spec fn filtered(filter: Seq<char>, code: KeyCode) -> Seq<char> {
    if code == KeyCode::Backspace && filter.len() > 0 {
        filter.drop_last()
    } else if code matches KeyCode::Char(c) && byte_len(filter) < 1024 {
        filter.push(code->Char_0)
    } else {
        filter
    }
}

/// What a key does while a change is inspected. Letters go to the filter while it is typed; what is
/// inspected never changes with it.
pub fn inspect_key(
    view: &mut ReviewView,
    searching: &mut bool,
    key: Key,
    visible: &Vec<usize>,
    page: Option<Page>,
    lines: usize,
    hunks: Option<&Vec<u64>>,
) -> (r: InspectStep)
    ensures
        if key.kind != KeyKind::Press {
            r == InspectStep::Stay && *final(view) == *old(view) && *final(searching) == *old(
                searching,
            )
        } else if key.controls('d') {
            r == InspectStep::Close && *final(view) == *old(view) && *final(searching) == *old(
                searching,
            )
        } else if key.controls('c') {
            r == InspectStep::Back && *final(view) == *old(view) && *final(searching) == *old(
                searching,
            )
        } else if *old(searching) {
            &&& r == InspectStep::Stay
            &&& *final(searching) == !(key.code == KeyCode::Esc || key.code == KeyCode::Enter)
            &&& final(view).filter@ == filtered(old(view).filter@, key.code)
            &&& *final(view) == (ReviewView { filter: final(view).filter, ..*old(view) })
        } else {
            &&& r == leads_to(*old(view), key.code)
            &&& *final(searching) == (key.code == KeyCode::Char('/') && !old(view).file)
            &&& *final(view) == moved(*old(view), key.code, visible@, page, lines, hunks_of(hunks))
        },
{
    match key.kind {
        KeyKind::Press => {},
        _ => {
            return InspectStep::Stay;
        },
    }
    if key.is_control('d') {
        return InspectStep::Close;
    }
    if key.is_control('c') {
        return InspectStep::Back;
    }
    if *searching {
        match key.code {
            KeyCode::Esc | KeyCode::Enter => {
                *searching = false;
            },
            KeyCode::Backspace => {
                let chars = chars_of(view.filter.as_str());
                if chars.len() > 0 {
                    let shorter = part(&chars, 0, chars.len() - 1);
                    assert(shorter@ =~= view.filter@.drop_last());
                    view.filter = shorter;
                }
            },
            KeyCode::Char(c) => {
                if bytes_in(view.filter.as_str()) < 1024 {
                    let mut longer = view.filter.clone();
                    longer.push(c);
                    view.filter = longer;
                }
            },
            _ => {},
        }
        return InspectStep::Stay;
    }
    match key.code {
        KeyCode::Char('q') => {
            return InspectStep::Back;
        },
        KeyCode::Esc => {
            if !view.file {
                return InspectStep::Back;
            }
        },
        KeyCode::Char('/') => {
            if !view.file {
                *searching = true;
            }
            return InspectStep::Stay;
        },
        KeyCode::Char('e') => {
            return InspectStep::External { pager: false };
        },
        KeyCode::Char('v') => {
            return InspectStep::External { pager: true };
        },
        _ => {},
    }
    steer(view, key.code, visible, page, lines, hunks);
    InspectStep::Stay
}

/// Whatever is pressed in the list, a listed entry stays selected.
pub proof fn moving_selects_only_listed_entries(
    view: ReviewView,
    code: KeyCode,
    visible: Seq<usize>,
    page: Option<Page>,
    lines: usize,
    hunks: Option<Seq<u64>>,
)
    requires
        visible.contains(view.selected),
    ensures
        visible.contains(moved(view, code, visible, page, lines, hunks).selected),
{
    places_exist(visible, view.selected, 0);
    let new = moved(view, code, visible, page, lines, hunks);
    let at = place(visible, view.selected);
    if new.selected != view.selected {
        if at + 1 < visible.len() && new.selected == visible[at + 1] {
        } else if new.selected == visible[above(at, 1)] {
        } else {
            assert(new.selected == visible[least(at + 1, above(visible.len() as int, 1))]);
        }
    }
}

/// The heading over a list or over a file.
pub fn title(view: &ReviewView, entries: &Vec<ChangeEntry>, matching: usize, ascii: bool) -> (r: String)
    ensures
        ({
            let text = if view.file {
                if view.selected < entries@.len() {
                    "Changes / "@ + label_text(lossy_text(entries@[view.selected as int].path@))
                } else {
                    "No changed files"@
                }
            } else {
                "Changes  ·  "@ + decimal(entries@.len()) + " entries  ·  "@ + decimal(
                    matching as nat,
                ) + " matching"@
            };
            r@ == (if ascii {
                replaced(text, "·"@, "-"@)
            } else {
                text
            })
        }),
{
    let mut text = String::new();
    if view.file {
        if view.selected < entries.len() {
            text = "Changes / ".to_owned();
            text.push_str(path_label(&entries[view.selected].path).as_str());
        } else {
            text = "No changed files".to_owned();
        }
    } else {
        text = "Changes  ·  ".to_owned();
        text.push_str(decimal_of(entries.len() as u64).as_str());
        text.push_str(" entries  ·  ");
        text.push_str(decimal_of(matching as u64).as_str());
        text.push_str(" matching");
    }
    if ascii {
        proof {
            reveal_strlit("·");
        }
        replace_text(text.as_str(), "·", "-")
    } else {
        text
    }
}

/// How many entries were renamed.
pub open spec fn renamed(entries: Seq<ChangeEntry>) -> nat
    decreases entries.len(),
{
    if entries.len() == 0 {
        0
    } else {
        renamed(entries.drop_last()) + (if entries.last().kind == ChangeKind::Renamed {
            1nat
        } else {
            0
        })
    }
}

/// What is said of renamed entries over a list, if there are any.
pub fn rename_note(view: &ReviewView, entries: &Vec<ChangeEntry>) -> (r: Option<String>)
    ensures
        if !view.file && renamed(entries@) > 0 {
            r matches Some(text) && text@ == decimal(renamed(entries@))
                + " rename(s) combine old and new paths"@
        } else {
            r is None
        },
{
    let mut n: u64 = 0;
    let mut i: usize = 0;
    assert(entries@.take(0) =~= Seq::empty());
    while i < entries.len()
        invariant
            i <= entries.len(),
            n == renamed(entries@.take(i as int)),
            n <= i,
        decreases entries.len() - i,
    {
        assert(entries@.take(i as int + 1).drop_last() =~= entries@.take(i as int));
        assert(entries@.take(i as int + 1).last() == entries@[i as int]);
        if entries[i].kind == ChangeKind::Renamed {
            n = n + 1;
        }
        i += 1;
    }
    assert(entries@.take(entries@.len() as int) =~= entries@);
    if !view.file && n > 0 {
        let mut text = decimal_of(n);
        text.push_str(" rename(s) combine old and new paths");
        Some(text)
    } else {
        None
    }
}

/// A text filled up with spaces to a number of characters.
pub open spec fn padded(s: Seq<char>, n: int) -> Seq<char>
    decreases n - s.len(),
{
    if s.len() >= n {
        s
    } else {
        padded(s.push(' '), n)
    }
}

fn pad(text: String, n: usize) -> (r: String)
    ensures
        r@ == padded(text@, n as int),
{
    let mut out = text;
    let ghost start = out@;
    let mut len: usize = chars_of(out.as_str()).len();
    while len < n
        invariant
            len == out@.len(),
            padded(start, n as int) == padded(out@, n as int),
        decreases n - len,
    {
        out.push(' ');
        len += 1;
    }
    out
}

/// The path of an entry, and the one before where there was one.
pub open spec fn row_path(e: ChangeEntry) -> Seq<char> {
    label_text(lossy_text(e.path@)) + (match e.previous_path {
        Some(old) => " <- "@ + label_text(lossy_text(old@)),
        None => Seq::empty(),
    })
}

/// The kind of an entry on a narrow screen.
pub open spec fn narrow_kind(e: ChangeEntry) -> Seq<char> {
    e.kind.word() + (if e.binary {
        " binary"@
    } else {
        ""@
    })
}

/// The row of an entry in the list.
pub open spec fn row_text(e: ChangeEntry, selected: bool, width: int) -> Seq<char> {
    let marker = if selected {
        "> "@
    } else {
        "  "@
    };
    let row = if width < 60 {
        let kind = narrow_kind(e);
        let taken: int = if kind.len() > 8 {
            kind.len() + 3int
        } else {
            11
        };
        marker + padded(kind, 8) + " "@ + tail_clipped(row_path(e), beside(width, taken))
    } else {
        let counts = if e.binary {
            "binary"@
        } else {
            "+"@ + decimal(count(e.additions) as nat) + " -"@ + decimal(count(e.deletions) as nat)
        };
        marker + padded(e.kind.word(), 8) + " "@ + padded(counts, 12) + " "@ + tail_clipped(
            row_path(e),
            beside(width, 25),
        )
    };
    clipped(row, width)
}

/// The row of an entry in the list; the end of its path stays in sight.
pub fn entry_row(e: &ChangeEntry, selected: bool, width: u16) -> (r: String)
    ensures
        r@ == row_text(*e, selected, width as int),
{
    let mut path = path_label(&e.path);
    if let Some(old) = &e.previous_path {
        path.push_str(" <- ");
        path.push_str(path_label(old).as_str());
    }
    assert(path@ =~= row_path(*e));
    let mut row = if selected {
        "> ".to_owned()
    } else {
        "  ".to_owned()
    };
    if width < 60 {
        let mut kind = e.kind.label().to_owned();
        if e.binary {
            kind.push_str(" binary");
        } else {
            kind.push_str("");
        }
        proof {
            reveal_strlit("modified");
            reveal_strlit("added");
            reveal_strlit("deleted");
            reveal_strlit("renamed");
            reveal_strlit("copied");
            reveal_strlit(" binary");
            reveal_strlit("");
        }
        let n = chars_of(kind.as_str()).len();
        let taken: u16 = if n > 8 {
            n as u16 + 3
        } else {
            11
        };
        row.push_str(pad(kind, 8).as_str());
        row.push_str(" ");
        row.push_str(tail_clip(path.as_str(), less(width, taken)).as_str());
    } else {
        let counts = if e.binary {
            "binary".to_owned()
        } else {
            let mut text = "+".to_owned();
            text.push_str(decimal_of(counted(e.additions)).as_str());
            text.push_str(" -");
            text.push_str(decimal_of(counted(e.deletions)).as_str());
            text
        };
        row.push_str(pad(e.kind.label().to_owned(), 8).as_str());
        row.push_str(" ");
        row.push_str(pad(counts, 12).as_str());
        row.push_str(" ");
        row.push_str(tail_clip(path.as_str(), less(width, 25)).as_str());
    }
    clip(row.as_str(), width)
}

/// The first row of the list that is drawn: as many rows as fit, with the selected one among them.
pub fn first_row(visible: &Vec<usize>, selected: usize, rows: usize) -> (r: usize)
    ensures
        r == above(place(visible@, selected), above(rows as int, 1)),
        r <= place(visible@, selected),
        rows > 0 ==> place(visible@, selected) - r < rows,
{
    let at: usize = match find_place(visible, selected) {
        Some(i) => i,
        None => 0,
    };
    let before: usize = if rows > 1 {
        rows - 1
    } else {
        0
    };
    if at > before {
        at - before
    } else {
        0
    }
}

/// The line below what is inspected.
pub fn status_line(
    view: &ReviewView,
    searching: bool,
    notice: &str,
    truncated: bool,
    ascii: bool,
) -> (r: String)
    ensures
        ({
            let text = if searching {
                "Filter /"@ + view.filter@
            } else if notice@.len() > 0 {
                notice@
            } else if truncated {
                "Bounded page · Space next page · v full patch pager"@
            } else if view.file {
                "Review copies only · external edits are never imported"@
            } else {
                "Filter /"@ + view.filter@
            };
            r@ == (if ascii {
                replaced(text, "·"@, "-"@)
            } else {
                text
            })
        }),
{
    let mut filter = "Filter /".to_owned();
    filter.push_str(view.filter.as_str());
    let text = if searching {
        filter
    } else if !notice.is_empty() {
        notice.to_owned()
    } else if truncated {
        "Bounded page · Space next page · v full patch pager".to_owned()
    } else if view.file {
        "Review copies only · external edits are never imported".to_owned()
    } else {
        filter
    };
    if ascii {
        proof {
            reveal_strlit("·");
        }
        replace_text(text.as_str(), "·", "-")
    } else {
        text
    }
}

/// The keys that an inspection names.
pub fn inspect_hint(file: bool, ascii: bool) -> (r: &'static str)
    ensures
        r@ == (if file {
            if ascii {
                "q back  Esc files  j/k scroll  h/l pan  n/p hunk  [ ] file  e editor  v pager"@
            } else {
                "q back  Esc files  ↑↓ scroll  ←→ pan  n/p hunk  [ ] file  e editor  v pager"@
            }
        } else if ascii {
            "q back  Enter open  / filter  j/k choose  e editor  v pager"@
        } else {
            "q back  Enter open  / filter  ↑↓ choose  e editor  v pager"@
        }),
{
    if file {
        if ascii {
            "q back  Esc files  j/k scroll  h/l pan  n/p hunk  [ ] file  e editor  v pager"
        } else {
            "q back  Esc files  ↑↓ scroll  ←→ pan  n/p hunk  [ ] file  e editor  v pager"
        }
    } else if ascii {
        "q back  Enter open  / filter  j/k choose  e editor  v pager"
    } else {
        "q back  Enter open  / filter  ↑↓ choose  e editor  v pager"
    }
}

/// Whether a line of a run stays in the summary beside the decision: the way there does not.
pub fn in_summary(line: &str) -> (r: bool)
    ensures
        r == !(occurs(line@, " ━━ "@) || occurs(line@, " == "@)),
{
    !contains_text(line, " ━━ ") && !contains_text(line, " == ")
}

/// Whether there is room for a preview beside the decision.
pub fn shows_preview(preview: &str, area: Rect) -> (r: bool)
    ensures
        r == (preview@.len() > 0 && area.width >= 45 && area.height >= 12),
{
    !preview.is_empty() && area.width >= 45 && area.height >= 12
}

/// Where a decision is drawn: the summary, the controls under it, and a row for what is typed.
pub fn decision_layout(area: Rect, control_lines: usize) -> (r: (Rect, Rect, Rect))
    requires
        area.wf(),
    ensures
        ({
            let h = area.height as int;
            let c = least(control_lines as int, h);
            let upper = above(h, c + 1);
            &&& r.0 == (Rect { height: upper as u16, ..area })
            &&& r.1 == (Rect { y: (area.y + upper) as u16, height: c as u16, ..area })
            &&& r.2 == (Rect { y: above(area.y + h, 1) as u16, height: 1, ..area })
        }),
        r.0.within(area),
        r.1.within(area),
        area.height > 0 ==> r.2.within(area),
{
    let controls: u16 = if control_lines < area.height as usize {
        control_lines as u16
    } else {
        area.height
    };
    let upper: u16 = if area.height > controls {
        area.height - controls - 1
    } else {
        0
    };
    let bottom: u16 = area.y + area.height;
    (
        Rect { x: area.x, y: area.y, width: area.width, height: upper },
        Rect { x: area.x, y: area.y + upper, width: area.width, height: controls },
        Rect {
            x: area.x,
            y: if bottom > 1 {
                bottom - 1
            } else {
                0
            },
            width: area.width,
            height: 1,
        },
    )
}

/// What is typed at a decision.
pub fn typed_line(action: &str, ascii: bool) -> (r: String)
    ensures
        r@ == (if action@.len() == 0 {
            Seq::empty()
        } else if ascii {
            "> "@ + action@ + " - Enter to choose"@
        } else {
            "› "@ + action@ + " · Enter to choose"@
        }),
{
    if action.is_empty() {
        return String::new();
    }
    if ascii {
        let mut text = "> ".to_owned();
        text.push_str(action);
        text.push_str(" - Enter to choose");
        text
    } else {
        let mut text = "› ".to_owned();
        text.push_str(action);
        text.push_str(" · Enter to choose");
        text
    }
}

/// Whether a character is a letter of ASCII.
pub open spec fn is_letter(c: char) -> bool {
    'a' <= c <= 'z' || 'A' <= c <= 'Z'
}

/// An action after a key, while it is typed.
pub open spec fn typed_action(action: Seq<char>, key: Key) -> Seq<char> {
    if key.kind != KeyKind::Press {
        action
    } else if key.code == KeyCode::Backspace && action.len() > 0 {
        action.drop_last()
    } else if key.code matches KeyCode::Char(c) && is_letter(c) && !key.controls('d')
        && !key.controls('c') && byte_len(action) < 12 {
        action.push(lower_char(key.code->Char_0))
    } else {
        action
    }
}

/// What ends the typing of an action, if the key does.
pub open spec fn ends_action(action: Seq<char>, key: Key, r: Option<Input>) -> bool {
    if key.kind != KeyKind::Press {
        r is None
    } else if key.code == KeyCode::Esc || key.controls('c') {
        r == Some(Input::Cancel)
    } else if key.code == KeyCode::Enter {
        r matches Some(Input::Submit(text)) && text@ == (if action.len() == 0 {
            "d"@
        } else {
            action
        })
    } else if key.controls('d') {
        r == Some(Input::Eof)
    } else {
        r is None
    }
}

/// What a key does to an action that is typed. Pasted text never becomes one.
pub fn action_key(action: &mut String, key: Key) -> (r: Option<Input>)
    ensures
        final(action)@ == typed_action(old(action)@, key),
        ends_action(old(action)@, key, r),
{
    match key.kind {
        KeyKind::Press => {},
        _ => {
            return None;
        },
    }
    let escape = match key.code {
        KeyCode::Esc => true,
        _ => false,
    };
    if escape || key.is_control('c') {
        return Some(Input::Cancel);
    }
    match key.code {
        KeyCode::Enter => {
            if action.as_str().is_empty() {
                return Some(Input::Submit("d".to_owned()));
            }
            return Some(Input::Submit(action.clone()));
        },
        KeyCode::Backspace => {
            let chars = chars_of(action.as_str());
            if chars.len() > 0 {
                let shorter = part(&chars, 0, chars.len() - 1);
                assert(shorter@ =~= action@.drop_last());
                *action = shorter;
            }
        },
        KeyCode::Char(c) => {
            if key.is_control('d') {
                return Some(Input::Eof);
            }
            if (('a' <= c && c <= 'z') || ('A' <= c && c <= 'Z')) && bytes_in(action.as_str())
                < 12 {
                let small: char = if 'A' <= c && c <= 'Z' {
                    (c as u8 + 32) as char
                } else {
                    c
                };
                action.push(small);
            }
        },
        _ => {},
    }
    None
}

/// What a decision asks for where there is no screen.
pub fn plain_decision(summary: &str, preview: &str, notice: &str) -> (r: String)
    ensures
        r@ == summary@ + "\n"@ + preview@ + "\n"@ + notice@
            + "\n[Enter/d] Review changes   [e] Open in editor\n[a] Accept & apply   [r] Reject   [n] Leave pending   [i] Details"@,
{
    let mut text = summary.to_owned();
    text.push_str("\n");
    text.push_str(preview);
    text.push_str("\n");
    text.push_str(notice);
    text.push_str(
        "\n[Enter/d] Review changes   [e] Open in editor\n[a] Accept & apply   [r] Reject   [n] Leave pending   [i] Details",
    );
    text
}

/// How an inspection begins.
#[derive(Debug, Clone, Copy, PartialEq, Eq, Structural)]
pub enum InspectStart {
    /// There is no screen.
    Plain,
    /// The selected entry is opened outside at once.
    External,
    /// It is looked at here.
    Screen,
}

/// How an inspection begins, and what it shows first: a single file at once, and the list where one of
/// several is to be opened outside.
pub fn begin_inspection(view: &mut ReviewView, entries: usize, plain: bool, external: bool) -> (r:
    InspectStart)
    ensures
        r == (if plain {
            InspectStart::Plain
        } else if external && entries <= 1 {
            InspectStart::External
        } else {
            InspectStart::Screen
        }),
        *final(view) == (if r == InspectStart::Screen && (entries == 1 || external) {
            ReviewView { file: entries == 1, ..*old(view) }
        } else {
            *old(view)
        }),
{
    if plain {
        return InspectStart::Plain;
    }
    if external && entries <= 1 {
        return InspectStart::External;
    }
    if entries == 1 {
        view.file = true;
    } else if external {
        view.file = false;
    }
    InspectStart::Screen
}

/// A page of a file where there is no screen.
pub fn plain_file(entry: &ChangeEntry, shown: &Preview) -> (r: String)
    ensures
        r@ == label_text(lossy_text(entry.path@)) + "\n"@ + compacted(shown.text@) + "\n"@ + (
        if shown.truncated {
            "Bounded preview. [more] next page"@
        } else {
            "End of file change"@
        }),
{
    let mut text = path_label(&entry.path);
    text.push_str("\n");
    text.push_str(compact_patch(shown.text.as_str()).as_str());
    text.push_str("\n");
    if shown.truncated {
        text.push_str("Bounded preview. [more] next page");
    } else {
        text.push_str("End of file change");
    }
    text
}

/// An entry in the list where there is no screen.
pub open spec fn plain_row(entries: Seq<ChangeEntry>, i: int) -> Seq<char> {
    decimal((i + 1) as nat) + " "@ + entries[i].kind.word() + " "@ + label_text(
        lossy_text(entries[i].path@),
    )
}

/// The rows from `from` up to `to` where there is no screen.
pub open spec fn plain_rows(entries: Seq<ChangeEntry>, from: int, to: int) -> Seq<Seq<char>> {
    Seq::new(
        if to > from {
            (to - from) as nat
        } else {
            0
        },
        |i: int| plain_row(entries, from + i),
    )
}

/// The list where there is no screen: twenty entries at a time.
pub fn plain_list(entries: &Vec<ChangeEntry>, selected: usize) -> (r: String)
    ensures
        r@ == joined_lines(
            plain_rows(
                entries@,
                selected as int,
                least(entries@.len() as int, selected + 20),
            ),
        ),
{
    let n = entries.len();
    let from: usize = if selected < n {
        selected
    } else {
        n
    };
    let to: usize = if n - from > 20 {
        from + 20
    } else {
        n
    };
    let ghost whole = plain_rows(entries@, selected as int, least(n as int, selected + 20));
    let mut out: Vec<String> = Vec::new();
    let mut i: usize = from;
    assert(texts(out@) =~= whole.take(0));
    while i < to
        invariant
            from <= i <= to,
            to <= entries.len(),
            from < to ==> from == selected,
            to == least(entries@.len() as int, selected + 20) || from == to,
            whole == plain_rows(
                entries@,
                selected as int,
                least(entries@.len() as int, selected + 20),
            ),
            texts(out@) == whole.take(i - from),
        decreases to - i,
    {
        let mut text = decimal_of(i as u64 + 1);
        text.push_str(" ");
        text.push_str(entries[i].kind.label());
        text.push_str(" ");
        text.push_str(path_label(&entries[i].path).as_str());
        assert(text@ == plain_row(entries@, i as int));
        assert(whole[i - from] == plain_row(entries@, i as int));
        put(&mut out, text.as_str());
        assert(whole.take(i - from + 1) =~= whole.take(i - from).push(whole[i - from]));
        i += 1;
    }
    assert(whole.take(to - from) =~= whole);
    join_lines(&out)
}

/// The value of decimal digits behind an optional plus sign.
pub open spec fn number(s: Seq<char>) -> Option<nat> {
    let digits = if s.len() > 0 && s[0] == '+' {
        s.skip(1)
    } else {
        s
    };
    if digits.len() > 0 && all_digits(digits) {
        Some(value(digits))
    } else {
        None
    }
}

/// Whether every character is a decimal digit.
pub open spec fn all_digits(s: Seq<char>) -> bool {
    forall|i: int| 0 <= i < s.len() ==> '0' <= #[trigger] s[i] <= '9'
}

/// The value of decimal digits.
pub open spec fn value(s: Seq<char>) -> nat
    decreases s.len(),
{
    if s.len() == 0 {
        0
    } else {
        value(s.drop_last()) * 10 + (s.last() as nat - 48) as nat
    }
}

/// The number that a text gives, where it lies between one and a limit.
fn number_up_to(s: &str, limit: usize) -> (r: Option<usize>)
    ensures
        match number(s@) {
            Some(n) => if 1 <= n <= limit {
                r == Some(n as usize)
            } else {
                r is None
            },
            None => r is None,
        },
{
    let all = chars_of(s);
    let from: usize = if all.len() > 0 && all[0] == '+' {
        1
    } else {
        0
    };
    let n = all.len();
    let ghost digits = all@.skip(from as int);
    assert(all@.skip(0) =~= all@);
    if from == n {
        return None;
    }
    let mut v: usize = 0;
    let mut big = false;
    let mut i: usize = from;
    assert(digits.take(0) =~= Seq::empty());
    while i < n
        invariant
            from <= i <= n,
            n == all.len(),
            digits == all@.skip(from as int),
            number(s@) == (if digits.len() > 0 && all_digits(digits) {
                Some(value(digits))
            } else {
                None
            }),
            all_digits(digits.take(i - from)),
            !big ==> v == value(digits.take(i - from)) && v <= limit,
            big ==> value(digits.take(i - from)) > limit,
        decreases n - i,
    {
        let c = all[i];
        assert(digits[i - from] == c);
        if !('0' <= c && c <= '9') {
            assert(!all_digits(digits));
            return None;
        }
        let d: u128 = (c as u32 - 48) as u128;
        let ghost next = digits.take(i - from + 1);
        assert(next.drop_last() =~= digits.take(i - from));
        assert(next.last() == c);
        if !big {
            let w: u128 = v as u128 * 10 + d;
            if w > limit as u128 {
                big = true;
            } else {
                v = w as usize;
            }
        }
        i += 1;
    }
    assert(digits.take(n - from) =~= digits);
    if big || v == 0 {
        None
    } else {
        Some(v)
    }
}

/// What is done where there is no screen, by what was entered; `false` goes back. Anything that means
/// nothing changes nothing.
pub fn plain_command(view: &mut ReviewView, entries: usize, input: &Input) -> (r: bool)
    ensures
        match *input {
            Input::Submit(a) => {
                &&& r == (a@ != "q"@)
                &&& *final(view) == (if a@ == "q"@ {
                    *old(view)
                } else if a@ == "files"@ {
                    ReviewView { file: false, offset: 0, ..*old(view) }
                } else if a@ == "more"@ {
                    if old(view).file {
                        *old(view)
                    } else {
                        ReviewView {
                            selected: least(old(view).selected + 20, above(entries as int, 1)) as usize,
                            ..*old(view)
                        }
                    }
                } else if number(a@) matches Some(n) && 1 <= n <= entries {
                    ReviewView {
                        selected: (number(a@)->0 - 1) as usize,
                        file: true,
                        offset: 0,
                        ..*old(view)
                    }
                } else {
                    *old(view)
                })
            },
            _ => !r && *final(view) == *old(view),
        },
{
    match input {
        Input::Submit(a) => {
            let word = a.as_str();
            if same(word, "q") {
                return false;
            }
            if same(word, "files") {
                view.file = false;
                view.offset = 0;
            } else if same(word, "more") {
                if !view.file {
                    let end: usize = if entries > 1 {
                        entries - 1
                    } else {
                        0
                    };
                    view.selected = if end >= 20 && view.selected <= end - 20 {
                        view.selected + 20
                    } else {
                        end
                    };
                }
            } else if let Some(n) = number_up_to(word, entries) {
                view.selected = n - 1;
                view.file = true;
                view.offset = 0;
            }
            true
        },
        _ => false,
    }
}

/// What a key does while details are read: the row that is shown first, and whether reading goes on.
pub fn details_key(row: u16, key: Option<Key>) -> (r: (u16, bool))
    ensures
        match key {
            None => r == (row, false),
            Some(k) => if k.code == KeyCode::Char('q') || k.code == KeyCode::Esc {
                r == (row, false)
            } else if moves_down(k.code) {
                r == (least(row + 1, 65535) as u16, true)
            } else if moves_up(k.code) {
                r == (above(row as int, 1) as u16, true)
            } else {
                r == (row, !k.controls('c'))
            },
        },
{
    match key {
        None => (row, false),
        Some(k) => match k.code {
            KeyCode::Char('q') | KeyCode::Esc => (row, false),
            KeyCode::Down | KeyCode::Char('j') => (
                if row < 65535 {
                    row + 1
                } else {
                    65535
                },
                true,
            ),
            KeyCode::Up | KeyCode::Char('k') => (
                if row > 1 {
                    row - 1
                } else {
                    0
                },
                true,
            ),
            _ => (row, !k.is_control('c')),
        },
    }
}

/// What is said after an external viewer was closed.
pub fn viewer_notice(copies_changed: bool, status: &Result<bool, String>) -> (r: String)
    ensures
        r@ == (if copies_changed {
            "Review copies changed. Those edits are not part of the candidate and will not be applied."@
        } else {
            match *status {
                Ok(true) => "Review closed. Acceptance is still your choice."@,
                Ok(false) => "Viewer closed or failed. Built-in review remains available."@,
                Err(e) => "Viewer failed: "@ + e@ + ". Built-in review remains available."@,
            }
        }),
{
    if copies_changed {
        return "Review copies changed. Those edits are not part of the candidate and will not be applied.".to_owned();
    }
    match status {
        Ok(true) => "Review closed. Acceptance is still your choice.".to_owned(),
        Ok(false) => "Viewer closed or failed. Built-in review remains available.".to_owned(),
        Err(e) => {
            let mut text = "Viewer failed: ".to_owned();
            text.push_str(e.as_str());
            text.push_str(". Built-in review remains available.");
            text
        },
    }
}

/// What is said where no external viewer can be opened.
pub fn no_viewer(error: &str) -> (r: String)
    ensures
        r@ == "Viewer unavailable: "@ + error@ + ". Built-in review remains available."@,
{
    let mut text = "Viewer unavailable: ".to_owned();
    text.push_str(error);
    text.push_str(". Built-in review remains available.");
    text
}

/// Prepares the next page of a plain inspection, or says why there is none. A single change is always
/// opened.
pub fn plain_start(view: &mut ReviewView, entries: usize) -> (r: Option<&'static str>)
    ensures
        match r {
            Some(text) => entries == 0 && text@ == "No file changes to inspect."@,
            None => entries > 0,
        },
        *final(view) == (if entries == 1 {
            ReviewView { file: true, ..*old(view) }
        } else {
            *old(view)
        }),
{
    if entries == 0 {
        return Some("No file changes to inspect.");
    }
    if entries == 1 {
        view.file = true;
    }
    None
}

/// A page of a plain inspection with the words that are understood below it.
pub fn plain_prompt(text: &str) -> (r: String)
    ensures
        r@ == text@ + "\n[number] open file  [more] next page  [files] file list  [q] back"@,
{
    let mut out = text.to_owned();
    out.push_str("\n[number] open file  [more] next page  [files] file list  [q] back");
    out
}

} // verus!
