//! The lines of a presentation: which parts of a text are drawn in which style. Styling never adds to a
//! text and never takes away from it.

use vstd::prelude::*;

use crate::presenter::theme::{Style, Theme};
use crate::presenter::{clusters, split_clusters, together, verification_words};

use crate::text::{
    begins_with, chars_of, contains_text, ends_in, has_prefix, has_suffix, lines, occurs, part,
    same, split_lines, texts,
};
use crate::record::VerificationState;

verus! {

/// A part of a line in one style.
#[derive(Debug, Clone, PartialEq, Eq)]
pub struct Span {
    pub text: String,
    pub style: Style,
}

/// A line: its parts, and the style under theirs.
#[derive(Debug, Clone, PartialEq, Eq)]
pub struct Line {
    pub spans: Vec<Span>,
    pub style: Style,
}

/// How a line is drawn: texts with their styles, over one style.
pub struct Drawn {
    pub spans: Seq<(Seq<char>, Style)>,
    pub style: Style,
}

impl Line {
    /// How the line is drawn.
    pub open spec fn drawn(self) -> Drawn {
        Drawn {
            spans: self.spans@.map_values(|s: Span| (s.text@, s.style)),
            style: self.style,
        }
    }
}

/// The text of a line that is drawn.
pub open spec fn drawn_text(d: Drawn) -> Seq<char> {
    together(d.spans.map_values(|s: (Seq<char>, Style)| s.0))
}

/// A line in one style.
pub open spec fn plain(line: Seq<char>, style: Style) -> Drawn {
    Drawn { spans: seq![(line, Style::native())], style }
}

fn native() -> (r: Style)
    ensures
        r == Style::native(),
{
    Style { fg: None, bold: false, underlined: false }
}

fn plain_line(line: &str, style: Style) -> (r: Line)
    ensures
        r.drawn() == plain(line@, style),
{
    let mut spans: Vec<Span> = Vec::new();
    spans.push(Span { text: line.to_owned(), style: native() });
    let r = Line { spans, style };
    assert(r.drawn().spans =~= plain(line@, style).spans);
    r
}

/// Texts one behind the other, in two steps.
pub proof fn together_in_steps(a: Seq<Seq<char>>, b: Seq<Seq<char>>)
    ensures
        together(a + b) == together(a) + together(b),
    decreases b.len(),
{
    if b.len() == 0 {
        assert(a + b =~= a);
        assert(together(a) + together(b) =~= together(a));
    } else {
        together_in_steps(a, b.drop_last());
        assert((a + b).drop_last() =~= a + b.drop_last());
        assert((a + b).last() == b.last());
        assert(together(a + b) =~= together(a) + together(b));
    }
}

/// A single text.
pub proof fn together_of_one(a: Seq<char>)
    ensures
        together(seq![a]) == a,
{
    assert(seq![a].drop_last() =~= Seq::<Seq<char>>::empty());
    assert(together(seq![a].drop_last()) =~= Seq::<char>::empty());
    assert(together(seq![a]) =~= a);
}

proof fn text_of_plain(line: Seq<char>, style: Style)
    ensures
        drawn_text(plain(line, style)) == line,
{
    let d = plain(line, style);
    assert(d.spans.map_values(|s: (Seq<char>, Style)| s.0) =~= seq![line]);
    together_of_one(line);
}

proof fn text_of_two(a: (Seq<char>, Style), b: (Seq<char>, Style), style: Style)
    ensures
        drawn_text(Drawn { spans: seq![a, b], style }) == a.0 + b.0,
{
    let d = Drawn { spans: seq![a, b], style };
    assert(d.spans.map_values(|s: (Seq<char>, Style)| s.0) =~= seq![a.0] + seq![b.0]);
    together_in_steps(seq![a.0], seq![b.0]);
    together_of_one(a.0);
    together_of_one(b.0);
}

proof fn text_of_three(
    a: (Seq<char>, Style),
    b: (Seq<char>, Style),
    c: (Seq<char>, Style),
    style: Style,
)
    ensures
        drawn_text(Drawn { spans: seq![a, b, c], style }) == a.0 + b.0 + c.0,
{
    let d = Drawn { spans: seq![a, b, c], style };
    assert(d.spans.map_values(|s: (Seq<char>, Style)| s.0) =~= (seq![a.0] + seq![b.0]) + seq![c.0]);
    together_in_steps(seq![a.0] + seq![b.0], seq![c.0]);
    together_in_steps(seq![a.0], seq![b.0]);
    together_of_one(a.0);
    together_of_one(b.0);
    together_of_one(c.0);
}

/// Whether a line is the first one of a signature.
pub open spec fn is_wordmark(line: Seq<char>) -> bool {
    ends_in(line, "  DISPATCH"@) && (begins_with(line, "  ┌"@) || begins_with(line, "  +"@))
}

/// Whether a line begins with a bar of a signature.
pub open spec fn is_bar(line: Seq<char>) -> bool {
    begins_with(line, "━━"@) || begins_with(line, "=="@)
}

/// How many cells the bar of a signature takes, and its style.
pub open spec fn bar(line: Seq<char>, palette: Theme) -> (int, Style) {
    if begins_with(line, "━━━"@) || begins_with(line, "==="@) {
        (3, palette.success)
    } else if begins_with(line, "━━└"@) || begins_with(line, "==+"@) {
        (2, palette.warning)
    } else {
        (2, palette.accent)
    }
}

/// A position, as far as the line reaches.
pub open spec fn up_to(line: Seq<char>, n: int) -> int {
    if n < line.len() {
        n
    } else {
        line.len() as int
    }
}

/// Whether a line is the way from a goal to its review.
pub open spec fn is_way(line: Seq<char>) -> bool {
    begins_with(line, "● goal"@) || begins_with(line, "* goal"@)
}

/// The style of a character on the way from a goal to its review.
pub open spec fn way_style(c: char, palette: Theme) -> Style {
    if c == '●' || c == '━' || c == '*' || c == '=' {
        palette.accent
    } else {
        palette.inactive
    }
}

/// The style of an ordinary line.
pub open spec fn line_style(line: Seq<char>, palette: Theme) -> Style {
    if begins_with(line, "Goal  "@) {
        Style { bold: true, ..palette.foreground }
    } else if begins_with(line, "Unverified"@) || begins_with(line, "Waiting"@) || begins_with(
        line,
        "Application blocked"@,
    ) {
        palette.warning
    } else if line == "Verification passed"@ {
        palette.success
    } else if occurs(line, "failed"@) || line == "Failed"@ || line == "Interrupted"@ {
        palette.error
    } else if line == "Ready for review"@ || line == "Working"@ || line == "Preparing"@ || line
        == "Verifying"@ {
        palette.accent
    } else if occurs(line, "○"@) || occurs(line, " == "@) || occurs(line, " ━━ "@) {
        palette.inactive
    } else {
        palette.foreground
    }
}

/// How a line of a body is drawn.
pub open spec fn styled(line: Seq<char>, palette: Theme) -> Drawn {
    if is_wordmark(line) {
        let split = line.len() - "  DISPATCH"@.len();
        Drawn {
            spans: seq![
                (line.take(split), palette.foreground),
                (line.skip(split), Style { bold: true, ..palette.foreground }),
            ],
            style: Style::native(),
        }
    } else if is_bar(line) {
        let end = up_to(line, bar(line, palette).0);
        let split = up_to(line, 6);
        Drawn {
            spans: seq![
                (line.take(end), bar(line, palette).1),
                (line.subrange(end, split), palette.foreground),
                (line.skip(split), palette.secondary),
            ],
            style: Style::native(),
        }
    } else if is_way(line) {
        Drawn {
            spans: line.map_values(|c: char| (seq![c], way_style(c, palette))),
            style: Style::native(),
        }
    } else {
        plain(line, line_style(line, palette))
    }
}

proof fn text_of_characters(line: Seq<char>)
    ensures
        together(line.map_values(|c: char| seq![c])) == line,
    decreases line.len(),
{
    if line.len() > 0 {
        text_of_characters(line.drop_last());
        let all = line.map_values(|c: char| seq![c]);
        assert(all.drop_last() =~= line.drop_last().map_values(|c: char| seq![c]));
        assert(together(all) =~= line);
    } else {
        assert(line =~= Seq::empty());
    }
}

/// Styling loses nothing: the parts of a line are the line.
pub proof fn styling_keeps_the_text(line: Seq<char>, palette: Theme)
    ensures
        drawn_text(styled(line, palette)) == line,
{
    let d = styled(line, palette);
    if is_wordmark(line) {
        let split = line.len() - "  DISPATCH"@.len();
        text_of_two(d.spans[0], d.spans[1], d.style);
        assert(d.spans =~= seq![d.spans[0], d.spans[1]]);
        assert(line.take(split) + line.skip(split) =~= line);
    } else if is_bar(line) {
        let end = up_to(line, bar(line, palette).0);
        let split = up_to(line, 6);
        text_of_three(d.spans[0], d.spans[1], d.spans[2], d.style);
        assert(d.spans =~= seq![d.spans[0], d.spans[1], d.spans[2]]);
        assert(line.take(end) + line.subrange(end, split) + line.skip(split) =~= line);
    } else if is_way(line) {
        assert(d.spans.map_values(|s: (Seq<char>, Style)| s.0) =~= line.map_values(
            |c: char| seq![c],
        ));
        text_of_characters(line);
    } else {
        text_of_plain(line, line_style(line, palette));
    }
}

fn line_style_of(line: &str, palette: &Theme) -> (r: Style)
    ensures
        r == line_style(line@, *palette),
{
    if has_prefix(line, "Goal  ") {
        palette.foreground.bold()
    } else if has_prefix(line, "Unverified") || has_prefix(line, "Waiting") || has_prefix(
        line,
        "Application blocked",
    ) {
        palette.warning
    } else if same(line, "Verification passed") {
        palette.success
    } else if contains_text(line, "failed") || same(line, "Failed") || same(line, "Interrupted") {
        palette.error
    } else if same(line, "Ready for review") || same(line, "Working") || same(line, "Preparing")
        || same(line, "Verifying") {
        palette.accent
    } else if contains_text(line, "○") || contains_text(line, " == ") || contains_text(
        line,
        " ━━ ",
    ) {
        palette.inactive
    } else {
        palette.foreground
    }
}

fn styled_line(line: &str, palette: &Theme) -> (r: Line)
    ensures
        r.drawn() == styled(line@, *palette),
{
    let chars = chars_of(line);
    let n = chars.len();
    let mut spans: Vec<Span> = Vec::new();
    let ghost whole = styled(line@, *palette);
    if has_suffix(line, "  DISPATCH") && (has_prefix(line, "  ┌") || has_prefix(line, "  +")) {
        proof {
            reveal_strlit("  DISPATCH");
        }
        let split = n - 10;
        spans.push(Span { text: part(&chars, 0, split), style: palette.foreground });
        spans.push(Span { text: part(&chars, split, n), style: palette.foreground.bold() });
        let r = Line { spans, style: native() };
        assert(r.spans@[0].text@ =~= line@.take(split as int));
        assert(r.spans@[1].text@ =~= line@.skip(split as int));
        assert(r.drawn().spans =~= whole.spans);
        return r;
    }
    if has_prefix(line, "━━") || has_prefix(line, "==") {
        let (cells, style): (usize, Style) = if has_prefix(line, "━━━") || has_prefix(line, "===") {
            (3, palette.success)
        } else if has_prefix(line, "━━└") || has_prefix(line, "==+") {
            (2, palette.warning)
        } else {
            (2, palette.accent)
        };
        let end: usize = if cells < n {
            cells
        } else {
            n
        };
        let split: usize = if 6 < n {
            6
        } else {
            n
        };
        spans.push(Span { text: part(&chars, 0, end), style });
        spans.push(Span { text: part(&chars, end, split), style: palette.foreground });
        spans.push(Span { text: part(&chars, split, n), style: palette.secondary });
        let r = Line { spans, style: native() };
        assert(r.spans@[0].text@ =~= line@.take(end as int));
        assert(r.spans@[1].text@ =~= line@.subrange(end as int, split as int));
        assert(r.spans@[2].text@ =~= line@.skip(split as int));
        assert(r.drawn().spans =~= whole.spans);
        return r;
    }
    if has_prefix(line, "● goal") || has_prefix(line, "* goal") {
        let mut i: usize = 0;
        while i < n
            invariant
                i <= n,
                n == chars.len(),
                chars@ == line@,
                spans@.len() == i,
                forall|k: int|
                    0 <= k < i ==> (#[trigger] spans@[k]).text@ == seq![line@[k]] && spans@[k].style
                        == way_style(line@[k], *palette),
            decreases n - i,
        {
            let c = chars[i];
            let style = if c == '●' || c == '━' || c == '*' || c == '=' {
                palette.accent
            } else {
                palette.inactive
            };
            let text = part(&chars, i, i + 1);
            assert(text@ =~= seq![line@[i as int]]);
            spans.push(Span { text, style });
            i += 1;
        }
        let r = Line { spans, style: native() };
        assert(r.drawn().spans =~= whole.spans);
        return r;
    }
    plain_line(line, line_style_of(line, palette))
}

/// The lines of a body, each in its style.
pub fn styled_body(body: &str, palette: &Theme) -> (r: Vec<Line>)
    ensures
        r@.len() == lines(body@).len(),
        forall|i: int|
            0 <= i < r@.len() ==> (#[trigger] r@[i]).drawn() == styled(lines(body@)[i], *palette),
{
    let all = split_lines(body);
    let mut out: Vec<Line> = Vec::new();
    let mut i: usize = 0;
    while i < all.len()
        invariant
            i <= all.len(),
            texts(all@) == lines(body@),
            out@.len() == i,
            forall|k: int|
                0 <= k < i ==> (#[trigger] out@[k]).drawn() == styled(lines(body@)[k], *palette),
        decreases all.len() - i,
    {
        assert(lines(body@)[i as int] == all@[i as int]@);
        out.push(styled_line(all[i].as_str(), palette));
        i += 1;
    }
    out
}

/// Whether there is such a line and it begins with `c`.
pub open spec fn begins_at(all: Seq<Seq<char>>, i: int, c: char) -> bool {
    0 <= i < all.len() && all[i].len() > 0 && all[i][0] == c
}

fn line_begins(all: &Vec<String>, i: usize, c: char) -> (r: bool)
    ensures
        r == begins_at(texts(all@), i as int, c),
{
    if i >= all.len() {
        return false;
    }
    assert(texts(all@)[i as int] == all@[i as int]@);
    let chars = chars_of(all[i].as_str());
    chars.len() > 0 && chars[0] == c
}

/// The line that a changed line stands against: the only other one of a pair of one removed line and one
/// added line.
pub open spec fn counterpart(all: Seq<Seq<char>>, i: int) -> Option<int> {
    if begins_at(all, i, '-') && !begins_with(all[i], "--- "@) && !begins_at(all, i - 1, '-')
        && !begins_at(all, i + 2, '+') {
        if begins_at(all, i + 1, '+') {
            Some(i + 1)
        } else {
            None
        }
    } else if begins_at(all, i, '+') && !begins_with(all[i], "+++ "@) && !begins_at(all, i + 1, '+')
        && !begins_at(all, i - 2, '-') {
        if begins_at(all, i - 1, '-') {
            Some(i - 1)
        } else {
            None
        }
    } else {
        None
    }
}

fn counterpart_of(all: &Vec<String>, i: usize) -> (r: Option<usize>)
    requires
        i < all.len(),
    ensures
        r matches Some(j) ==> j < all.len() && counterpart(texts(all@), i as int) == Some(j as int),
        r is None ==> counterpart(texts(all@), i as int) is None,
{
    assert(texts(all@)[i as int] == all@[i as int]@);
    let n = all.len();
    if line_begins(all, i, '-') && !has_prefix(all[i].as_str(), "--- ") && !(i >= 1 && line_begins(
        all,
        i - 1,
        '-',
    )) && !(n - i > 2 && line_begins(all, i + 2, '+')) {
        if n - i > 1 && line_begins(all, i + 1, '+') {
            Some(i + 1)
        } else {
            None
        }
    } else if line_begins(all, i, '+') && !has_prefix(all[i].as_str(), "+++ ") && !(n - i > 1
        && line_begins(all, i + 1, '+')) && !(i >= 2 && line_begins(all, i - 2, '-')) {
        if i >= 1 && line_begins(all, i - 1, '-') {
            Some(i - 1)
        } else {
            None
        }
    } else {
        None
    }
}

/// How many texts two sequences begin with in common.
pub open spec fn agreeing(a: Seq<Seq<char>>, b: Seq<Seq<char>>) -> nat
    decreases a.len(),
{
    if a.len() > 0 && b.len() > 0 && a[0] == b[0] {
        1 + agreeing(a.skip(1), b.skip(1))
    } else {
        0
    }
}

/// How many texts two sequences end with in common.
pub open spec fn agreeing_back(a: Seq<Seq<char>>, b: Seq<Seq<char>>) -> nat
    decreases a.len(),
{
    if a.len() > 0 && b.len() > 0 && a.last() == b.last() {
        1 + agreeing_back(a.drop_last(), b.drop_last())
    } else {
        0
    }
}

proof fn agreement_is_bounded(a: Seq<Seq<char>>, b: Seq<Seq<char>>)
    ensures
        agreeing(a, b) <= a.len(),
        agreeing(a, b) <= b.len(),
        agreeing_back(a, b) <= a.len(),
        agreeing_back(a, b) <= b.len(),
    decreases a.len(),
{
    if a.len() > 0 && b.len() > 0 {
        if a[0] == b[0] {
            agreement_is_bounded(a.skip(1), b.skip(1));
        }
        if a.last() == b.last() {
            agreement_is_bounded(a.drop_last(), b.drop_last());
        }
    }
}

fn count_agreeing(a: &Vec<String>, b: &Vec<String>) -> (r: usize)
    ensures
        r == agreeing(texts(a@), texts(b@)),
        r <= a.len(),
        r <= b.len(),
{
    let ghost x = texts(a@);
    let ghost y = texts(b@);
    let mut i: usize = 0;
    assert(x.skip(0) =~= x);
    assert(y.skip(0) =~= y);
    while i < a.len() && i < b.len() && same(a[i].as_str(), b[i].as_str())
        invariant
            i <= a.len(),
            i <= b.len(),
            x == texts(a@),
            y == texts(b@),
            agreeing(x, y) == i + agreeing(x.skip(i as int), y.skip(i as int)),
        decreases a.len() - i,
    {
        assert(x.skip(i as int)[0] == a@[i as int]@);
        assert(y.skip(i as int)[0] == b@[i as int]@);
        assert(x.skip(i as int).skip(1) =~= x.skip(i as int + 1));
        assert(y.skip(i as int).skip(1) =~= y.skip(i as int + 1));
        i += 1;
    }
    proof {
        if i < a@.len() && i < b@.len() {
            assert(x.skip(i as int)[0] == a@[i as int]@);
            assert(y.skip(i as int)[0] == b@[i as int]@);
        }
    }
    i
}

fn count_agreeing_back(a: &Vec<String>, b: &Vec<String>, from: usize) -> (r: usize)
    requires
        from <= a.len(),
        from <= b.len(),
    ensures
        r == agreeing_back(texts(a@).skip(from as int), texts(b@).skip(from as int)),
        r <= a.len() - from,
        r <= b.len() - from,
{
    let ghost x = texts(a@).skip(from as int);
    let ghost y = texts(b@).skip(from as int);
    let n = a.len() - from;
    let m = b.len() - from;
    let mut k: usize = 0;
    assert(x.take(n as int) =~= x);
    assert(y.take(m as int) =~= y);
    while k < n && k < m && same(a[a.len() - 1 - k].as_str(), b[b.len() - 1 - k].as_str())
        invariant
            from <= a.len(),
            from <= b.len(),
            n == a.len() - from,
            m == b.len() - from,
            k <= n,
            k <= m,
            x == texts(a@).skip(from as int),
            y == texts(b@).skip(from as int),
            agreeing_back(x, y) == k + agreeing_back(x.take(n - k), y.take(m - k)),
        decreases n - k,
    {
        assert(x.take(n - k).last() == a@[a@.len() - 1 - k]@);
        assert(y.take(m - k).last() == b@[b@.len() - 1 - k]@);
        assert(x.take(n - k).drop_last() =~= x.take(n - k - 1));
        assert(y.take(m - k).drop_last() =~= y.take(m - k - 1));
        k += 1;
    }
    proof {
        if k < n && k < m {
            assert(x.take(n - k).last() == a@[a@.len() - 1 - k]@);
            assert(y.take(m - k).last() == b@[b@.len() - 1 - k]@);
        }
    }
    k
}

/// The style of a line of a patch. The signs in front of it stay without color too.
pub open spec fn diff_style(line: Seq<char>, palette: Theme) -> Style {
    if line.len() > 0 && line[0] == '+' {
        palette.addition
    } else if line.len() > 0 && line[0] == '-' {
        palette.deletion
    } else if begins_with(line, "@@"@) {
        palette.secondary
    } else {
        palette.foreground
    }
}

/// A changed line against its counterpart: what differs is emphasized.
pub open spec fn emphasized(
    line: Seq<char>,
    a: Seq<Seq<char>>,
    b: Seq<Seq<char>>,
    style: Style,
) -> Drawn {
    let first = agreeing(a, b) as int;
    let last = a.len() - agreeing_back(a.skip(first), b.skip(first));
    Drawn {
        spans: seq![
            (line.take(1) + together(a.take(first)), style),
            (
                together(a.subrange(first, last)),
                Style { bold: true, underlined: true, ..style },
            ),
            (together(a.skip(last)), style),
        ],
        style: Style::native(),
    }
}

/// How a line of a patch is drawn.
pub open spec fn diff_drawn(all: Seq<Seq<char>>, i: int, palette: Theme) -> Drawn {
    let style = diff_style(all[i], palette);
    match counterpart(all, i) {
        Some(j) => emphasized(all[i], clusters(all[i].skip(1)), clusters(all[j].skip(1)), style),
        None => plain(all[i], style),
    }
}

/// Texts from a position to another, one behind the other.
pub(crate) fn gather(parts: &Vec<String>, from: usize, to: usize) -> (r: String)
    requires
        from <= to <= parts.len(),
    ensures
        r@ == together(texts(parts@).subrange(from as int, to as int)),
{
    let ghost all = texts(parts@);
    let mut out = String::new();
    let mut i: usize = from;
    assert(all.subrange(from as int, from as int) =~= Seq::empty());
    while i < to
        invariant
            from <= i <= to <= parts.len(),
            all == texts(parts@),
            out@ == together(all.subrange(from as int, i as int)),
        decreases to - i,
    {
        let ghost next = all.subrange(from as int, i as int + 1);
        assert(next.drop_last() =~= all.subrange(from as int, i as int));
        assert(next.last() == parts@[i as int]@);
        out.push_str(parts[i].as_str());
        i += 1;
    }
    out
}

proof fn emphasis_keeps_the_text(
    line: Seq<char>,
    a: Seq<Seq<char>>,
    b: Seq<Seq<char>>,
    style: Style,
)
    requires
        line.len() > 0,
        together(a) == line.skip(1),
    ensures
        drawn_text(emphasized(line, a, b, style)) == line,
{
    let d = emphasized(line, a, b, style);
    let first = agreeing(a, b) as int;
    agreement_is_bounded(a, b);
    agreement_is_bounded(a.skip(first), b.skip(first));
    let last = a.len() - agreeing_back(a.skip(first), b.skip(first));
    text_of_three(d.spans[0], d.spans[1], d.spans[2], d.style);
    assert(d.spans =~= seq![d.spans[0], d.spans[1], d.spans[2]]);
    together_in_steps(a.take(first), a.subrange(first, last));
    together_in_steps(a.take(first) + a.subrange(first, last), a.skip(last));
    assert(a.take(first) + a.subrange(first, last) + a.skip(last) =~= a);
    assert(d.spans[0].0 + d.spans[1].0 + d.spans[2].0 =~= line.take(1) + together(a));
    assert(line.take(1) + line.skip(1) =~= line);
}

/// A changed line, of which `own` are the clusters behind its sign, against a counterpart with the clusters
/// `other`: what differs is emphasized.
pub fn emphasize(line: &Vec<char>, own: &Vec<String>, other: &Vec<String>, style: Style) -> (r: Line)
    requires
        line@.len() > 0,
    ensures
        r.drawn() == emphasized(line@, texts(own@), texts(other@), style),
{
    let first = count_agreeing(own, other);
    let back = count_agreeing_back(own, other, first);
    let last = own.len() - back;
    let mut head = part(line, 0, 1);
    head.push_str(gather(own, 0, first).as_str());
    let mut spans: Vec<Span> = Vec::new();
    spans.push(Span { text: head, style });
    spans.push(Span { text: gather(own, first, last), style: style.bold().underlined() });
    spans.push(Span { text: gather(own, last, own.len()), style });
    let out = Line { spans, style: native() };
    proof {
        let x = texts(own@);
        assert(line@.subrange(0, 1) =~= line@.take(1));
        assert(x.subrange(0, first as int) =~= x.take(first as int));
        assert(x.subrange(last as int, x.len() as int) =~= x.skip(last as int));
        assert(out.drawn().spans =~= emphasized(line@, x, texts(other@), style).spans);
    }
    out
}

/// The lines of a patch, each in its style; within a pair of one removed and one added line only what
/// differs is emphasized. No line loses a part of its text.
pub fn diff_lines(text: &str, palette: &Theme) -> (r: Vec<Line>)
    ensures
        r@.len() == lines(text@).len(),
        forall|i: int|
            0 <= i < r@.len() ==> (#[trigger] r@[i]).drawn() == diff_drawn(
                lines(text@),
                i,
                *palette,
            ),
        forall|i: int|
            0 <= i < r@.len() ==> drawn_text((#[trigger] r@[i]).drawn()) == lines(text@)[i],
{
    let all = split_lines(text);
    let ghost whole = lines(text@);
    let mut out: Vec<Line> = Vec::new();
    let mut i: usize = 0;
    while i < all.len()
        invariant
            i <= all.len(),
            texts(all@) == whole,
            out@.len() == i,
            forall|k: int|
                0 <= k < i ==> (#[trigger] out@[k]).drawn() == diff_drawn(whole, k, *palette),
            forall|k: int| 0 <= k < i ==> drawn_text((#[trigger] out@[k]).drawn()) == whole[k],
        decreases all.len() - i,
    {
        assert(whole[i as int] == all@[i as int]@);
        let chars = chars_of(all[i].as_str());
        let style = if chars.len() > 0 && chars[0] == '+' {
            palette.addition
        } else if chars.len() > 0 && chars[0] == '-' {
            palette.deletion
        } else if has_prefix(all[i].as_str(), "@@") {
            palette.secondary
        } else {
            palette.foreground
        };
        match counterpart_of(&all, i) {
            Some(j) => {
                assert(whole[j as int] == all@[j as int]@);
                let others = chars_of(all[j].as_str());
                let a = split_clusters(part(&chars, 1, chars.len()).as_str());
                let b = split_clusters(part(&others, 1, others.len()).as_str());
                let line = emphasize(&chars, &a, &b, style);
                proof {
                    let l = whole[i as int];
                    assert(chars@.subrange(1, chars@.len() as int) =~= l.skip(1));
                    assert(others@.subrange(1, others@.len() as int) =~= whole[j as int].skip(1));
                    emphasis_keeps_the_text(l, texts(a@), texts(b@), style);
                }
                out.push(line);
            },
            None => {
                proof {
                    text_of_plain(whole[i as int], style);
                }
                out.push(plain_line(all[i].as_str(), style));
            },
        }
        i += 1;
    }
    out
}

/// Outside of what is emphasized, a changed line and its counterpart read the same: the parts before and
/// behind it agree, and as many of them as can.
pub proof fn emphasis_marks_only_what_differs(a: Seq<Seq<char>>, b: Seq<Seq<char>>)
    ensures
        ({
            let first = agreeing(a, b) as int;
            &&& first <= a.len() && first <= b.len()
            &&& agreeing(b, a) == agreeing(a, b)
            &&& a.take(first) == b.take(first)
            &&& (first < a.len() && first < b.len()) ==> a[first] != b[first]
        }),
    decreases a.len(),
{
    agreement_is_bounded(a, b);
    let first = agreeing(a, b) as int;
    if a.len() > 0 && b.len() > 0 && a[0] == b[0] {
        emphasis_marks_only_what_differs(a.skip(1), b.skip(1));
        let x = a.skip(1);
        let y = b.skip(1);
        assert forall|k: int| 0 <= k < first implies a[k] == b[k] by {
            if k > 0 {
                assert(x.take(first - 1)[k - 1] == y.take(first - 1)[k - 1]);
            }
        }
        assert(a.take(first) =~= b.take(first));
        if first < a.len() && first < b.len() {
            assert(x[first - 1] == a[first]);
            assert(y[first - 1] == b[first]);
        }
    } else {
        assert(a.take(0) =~= b.take(0));
    }
}

/// The parts that two lines end with in common are the same, and as many of them as can be.
pub proof fn emphasis_ends_where_the_rest_agrees(a: Seq<Seq<char>>, b: Seq<Seq<char>>)
    ensures
        ({
            let n = agreeing_back(a, b) as int;
            &&& n <= a.len() && n <= b.len()
            &&& agreeing_back(b, a) == agreeing_back(a, b)
            &&& a.skip(a.len() - n) == b.skip(b.len() - n)
            &&& (n < a.len() && n < b.len()) ==> a[a.len() - 1 - n] != b[b.len() - 1 - n]
        }),
    decreases a.len(),
{
    agreement_is_bounded(a, b);
    let n = agreeing_back(a, b) as int;
    if a.len() > 0 && b.len() > 0 && a.last() == b.last() {
        let x = a.drop_last();
        let y = b.drop_last();
        emphasis_ends_where_the_rest_agrees(x, y);
        let p = a.skip(a.len() - n);
        let q = b.skip(b.len() - n);
        assert forall|k: int| 0 <= k < n implies #[trigger] p[k] == q[k] by {
            if k < n - 1 {
                assert(x.skip(x.len() - (n - 1))[k] == y.skip(y.len() - (n - 1))[k]);
            }
        }
        assert(a.skip(a.len() - n) =~= b.skip(b.len() - n));
    } else {
        assert(a.skip(a.len() as int) =~= b.skip(b.len() as int));
    }
}

/// Checks that were not configured are drawn as a warning, never as a success.
pub proof fn unconfigured_checks_are_a_warning(palette: Theme)
    ensures
        styled(verification_words(VerificationState::NotConfigured), palette) == plain(
            verification_words(VerificationState::NotConfigured),
            palette.warning,
        ),
{
    let line = verification_words(VerificationState::NotConfigured);
    reveal_strlit("Unverified — no checks configured");
    reveal_strlit("Unverified");
    reveal_strlit("Goal  ");
    reveal_strlit("  DISPATCH");
    reveal_strlit("  ┌");
    reveal_strlit("  +");
    reveal_strlit("━━");
    reveal_strlit("==");
    reveal_strlit("● goal");
    reveal_strlit("* goal");
    assert(line[0] == 'U');
    assert("  ┌"@[0] == ' ' && "  +"@[0] == ' ' && "━━"@[0] == '━' && "=="@[0] == '=');
    assert("● goal"@[0] == '●' && "* goal"@[0] == '*' && "Goal  "@[0] == 'G');
    assert(line.take(10) =~= "Unverified"@);
    assert forall|p: Seq<char>| p.len() > 0 && #[trigger] begins_with(line, p) implies p[0] == 'U' by {
        assert(line.take(p.len() as int)[0] == p[0]);
    }
}

} // verus!
