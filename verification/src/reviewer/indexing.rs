//! What the index of a patch says, read off the lines of the patch itself.

use vstd::prelude::*;
use vstd::utf8::*;

use crate::reviewer::{
    closed_at, decoded, entries_after_line, entries_from, entry_after_line, fresh_entry, header_names, index_of,
    line_end, line_end_is_ahead, line_keeps_place, line_text, one_more, path_problem, ChangeKind, Entry,
    MAX_HEADER, MAX_HUNKS,
};

use crate::bytes::{starts, utf8};

verus! {

/// Whether a line begins at a position of a patch.
pub open spec fn begins_line(patch: Seq<u8>, p: int) -> bool {
    0 <= p < patch.len() && (p == 0 || patch[p - 1] == 10)
}

/// Whether a line begins at a position, and with these characters.
pub open spec fn line_reads(patch: Seq<u8>, p: int, text: Seq<char>) -> bool {
    &&& begins_line(patch, p)
    &&& p + text.len() <= patch.len()
    &&& forall|i: int| 0 <= i < text.len() ==> #[trigger] patch[p + i] == text[i] as u8
}

/// Whether a line is these characters and nothing else.
pub open spec fn line_is(patch: Seq<u8>, p: int, text: Seq<char>) -> bool {
    line_reads(patch, p, text) && (p + text.len() == patch.len() || patch[p + text.len()] == 10)
}

/// How many lines that begin from `from` on, before `to`, are of a kind.
pub open spec fn lines_of(patch: Seq<u8>, from: int, to: int, kind: spec_fn(int) -> bool) -> nat
    decreases to - from,
{
    if to <= from {
        0
    } else {
        lines_of(patch, from, to - 1, kind) + (if begins_line(patch, to - 1) && kind(to - 1) {
            1nat
        } else {
            0nat
        })
    }
}

/// Whether the line at `p` heads a hunk.
pub open spec fn heads_hunk(patch: Seq<u8>, p: int) -> bool {
    line_reads(patch, p, "@@ "@)
}

/// Whether a hunk is headed from `from` on, before `p`.
pub open spec fn is_in_hunks(patch: Seq<u8>, from: int, p: int) -> bool {
    exists|q: int| from <= q < p && #[trigger] heads_hunk(patch, q)
}

/// The lines behind the first hunk header that begin with a byte.
pub open spec fn behind_header(patch: Seq<u8>, from: int, byte: u8) -> spec_fn(int) -> bool {
    |p: int| patch[p] == byte && is_in_hunks(patch, from, p)
}

/// The lines that head a hunk.
pub open spec fn hunk_headers(patch: Seq<u8>) -> spec_fn(int) -> bool {
    |p: int| heads_hunk(patch, p)
}

/// Whether a line says that the contents are binary.
pub open spec fn says_binary(patch: Seq<u8>, p: int) -> bool {
    line_is(patch, p, "GIT binary patch"@) || line_reads(patch, p, "Binary files "@)
}

/// Whether a line says that the permissions changed.
pub open spec fn says_permissions(patch: Seq<u8>, p: int) -> bool {
    line_reads(patch, p, "old mode "@) || line_reads(patch, p, "new mode "@)
}

/// The kind of change that a line states, if it states one.
pub open spec fn stated_kind(patch: Seq<u8>, p: int) -> Option<ChangeKind> {
    if line_reads(patch, p, "new file mode "@) {
        Some(ChangeKind::Added)
    } else if line_reads(patch, p, "deleted file mode "@) {
        Some(ChangeKind::Deleted)
    } else if line_reads(patch, p, "rename from "@) {
        Some(ChangeKind::Renamed)
    } else if line_reads(patch, p, "copy from "@) {
        Some(ChangeKind::Copied)
    } else {
        None
    }
}

/// Whether an entry is called binary, or its permissions changed, exactly where a line from `from` to `to`
/// says so.
pub open spec fn flags_say(patch: Seq<u8>, e: Entry, from: int, to: int) -> bool {
    &&& e.binary <==> exists|p: int| from <= p < to && #[trigger] says_binary(patch, p)
    &&& e.permission_change <==> exists|p: int|
        from <= p < to && #[trigger] says_permissions(patch, p)
}

/// Whether an entry counts the lines from `from` to `to` that begin with a plus or a minus sign behind the
/// first hunk header. Of a binary file nothing is counted.
pub open spec fn counts_say(patch: Seq<u8>, e: Entry, from: int, to: int) -> bool {
    &&& e.binary ==> e.additions is None && e.deletions is None
    &&& !e.binary ==> e.additions is Some && e.additions->0 == lines_of(
        patch,
        from,
        to,
        behind_header(patch, from, 43),
    )
    &&& !e.binary ==> e.deletions is Some && e.deletions->0 == lines_of(
        patch,
        from,
        to,
        behind_header(patch, from, 45),
    )
}

/// Whether the kind of an entry is the one that is stated last from `from` to `to`, and a modification where
/// none is stated.
pub open spec fn kind_says(patch: Seq<u8>, e: Entry, from: int, to: int) -> bool {
    &&& (forall|p: int| from <= p < to ==> (#[trigger] stated_kind(patch, p)) is None) ==> e.kind
        == ChangeKind::Modified
    &&& forall|p: int|
        from <= p < to && (#[trigger] stated_kind(patch, p)) is Some && (forall|q: int|
            p < q < to ==> (#[trigger] stated_kind(patch, q)) is None) ==> e.kind == stated_kind(
            patch,
            p,
        )->0
}

/// Whether an entry lists the hunk headers from `from` to `to`, in order and up to the most that are listed.
pub open spec fn hunks_say(patch: Seq<u8>, e: Entry, from: int, to: int) -> bool {
    &&& e.hunks.len() == (if lines_of(patch, from, to, hunk_headers(patch)) < MAX_HUNKS {
        lines_of(patch, from, to, hunk_headers(patch))
    } else {
        MAX_HUNKS as nat
    })
    &&& forall|k: int|
        0 <= k < e.hunks.len() ==> from + (#[trigger] e.hunks[k]) < to && heads_hunk(
            patch,
            from + e.hunks[k],
        )
    &&& forall|k: int, l: int|
        0 <= k < l < e.hunks.len() ==> (#[trigger] e.hunks[k]) < (#[trigger] e.hunks[l])
}

/// The bytes of the line at `p` behind its first `skipped`.
pub open spec fn rest_of_line(patch: Seq<u8>, p: int, skipped: int) -> Seq<u8> {
    line_text(patch, p, line_end(patch, p)).skip(skipped)
}

/// Whether a line states that the file is added or deleted as a regular one, if it states either.
#[verifier::opaque]
pub open spec fn stated_regular(patch: Seq<u8>, p: int) -> Option<bool> {
    if line_reads(patch, p, "new file mode "@) {
        Some(line_reads(patch, p, "new file mode 100"@))
    } else if line_reads(patch, p, "deleted file mode "@) {
        Some(line_reads(patch, p, "deleted file mode 100"@))
    } else {
        None
    }
}

/// Whether an entry is called regular as it is stated last from `from` to `to`, and not where it is not
/// stated.
pub open spec fn regular_says(patch: Seq<u8>, e: Entry, from: int, to: int) -> bool {
    &&& (forall|p: int| from <= p < to ==> (#[trigger] stated_regular(patch, p)) is None) ==> !e.regular
    &&& forall|p: int|
        from <= p < to && (#[trigger] stated_regular(patch, p)) is Some && (forall|q: int|
            p < q < to ==> (#[trigger] stated_regular(patch, q)) is None) ==> stated_regular(patch, p)
            == Some(e.regular)
}

/// The two paths that the header at `p` names.
#[verifier::opaque]
pub open spec fn names_at(patch: Seq<u8>, p: int) -> Result<(Seq<u8>, Seq<u8>), Seq<char>> {
    header_names(rest_of_line(patch, p, 11))
}

/// The path that a line gives the file, if it gives one: what it is renamed or copied to.
#[verifier::opaque]
pub open spec fn stated_path(patch: Seq<u8>, p: int) -> Option<Result<Seq<u8>, Seq<char>>> {
    if line_reads(patch, p, "rename to "@) {
        Some(decoded(rest_of_line(patch, p, 10)))
    } else if line_reads(patch, p, "copy to "@) {
        Some(decoded(rest_of_line(patch, p, 8)))
    } else {
        None
    }
}

/// The earlier path that a line gives the file, if it gives one: what it is renamed or copied from.
#[verifier::opaque]
pub open spec fn stated_previous(patch: Seq<u8>, p: int) -> Option<Result<Seq<u8>, Seq<char>>> {
    if line_reads(patch, p, "rename from "@) {
        Some(decoded(rest_of_line(patch, p, 12)))
    } else if line_reads(patch, p, "copy from "@) {
        Some(decoded(rest_of_line(patch, p, 10)))
    } else {
        None
    }
}

/// Whether the path of an entry is the one that is stated last from `from` to `to`, and the second one of its
/// header where none is stated.
pub open spec fn path_says(patch: Seq<u8>, e: Entry, from: int, to: int) -> bool {
    &&& (forall|p: int| from <= p < to ==> (#[trigger] stated_path(patch, p)) is None)
        ==> names_at(patch, from) is Ok && e.path == names_at(patch, from)->Ok_0.1
    &&& forall|p: int|
        from <= p < to && (#[trigger] stated_path(patch, p)) is Some && (forall|q: int|
            p < q < to ==> (#[trigger] stated_path(patch, q)) is None) ==> stated_path(patch, p)
            == Some(Ok::<Seq<u8>, Seq<char>>(e.path))
}

/// Whether the earlier path of an entry is the one that is stated last from `from` to `to`, and where none is
/// stated the first one of its header if that is another one.
pub open spec fn previous_says(patch: Seq<u8>, e: Entry, from: int, to: int) -> bool {
    &&& (forall|p: int| from <= p < to ==> (#[trigger] stated_previous(patch, p)) is None)
        ==> names_at(patch, from) is Ok && ({
        let names = names_at(patch, from)->Ok_0;
        e.previous == (if names.0 == names.1 {
            None
        } else {
            Some(names.0)
        })
    })
    &&& forall|p: int|
        from <= p < to && (#[trigger] stated_previous(patch, p)) is Some && (forall|q: int|
            p < q < to ==> (#[trigger] stated_previous(patch, q)) is None) ==> e.previous is Some
            && stated_previous(patch, p) == Some(Ok::<Seq<u8>, Seq<char>>(e.previous->0))
}

/// Whether an entry says what the lines of its record say, from `from` to `to`.
#[verifier::opaque]
pub open spec fn record_says(patch: Seq<u8>, e: Entry, from: int, to: int) -> bool {
    &&& flags_say(patch, e, from, to)
    &&& counts_say(patch, e, from, to)
    &&& kind_says(patch, e, from, to)
    &&& hunks_say(patch, e, from, to)
    &&& path_says(patch, e, from, to)
    &&& previous_says(patch, e, from, to)
    &&& regular_says(patch, e, from, to)
}

proof fn line_end_is_the_first(patch: Seq<u8>, from: int)
    requires
        0 <= from < patch.len(),
    ensures
        from < line_end(patch, from) <= patch.len(),
        forall|k: int| from <= k < line_end(patch, from) - 1 ==> #[trigger] patch[k] != 10,
        line_end(patch, from) < patch.len() ==> patch[line_end(patch, from) - 1] == 10,
        line_end(patch, from) == patch.len() || patch[line_end(patch, from) - 1] == 10,
    decreases patch.len() - from,
{
    line_end_is_ahead(patch, from);
    if patch[from] != 10 && from + 1 < patch.len() {
        line_end_is_the_first(patch, from + 1);
    } else if patch[from] != 10 {
        assert(line_end(patch, from + 1) == patch.len());
    }
}

proof fn a_line_counts_once(patch: Seq<u8>, from: int, offset: int, to: int, kind: spec_fn(int) -> bool)
    requires
        0 <= from <= offset < to <= line_end(patch, offset),
        begins_line(patch, offset),
    ensures
        lines_of(patch, from, to, kind) == lines_of(patch, from, offset, kind) + (if kind(offset) {
            1nat
        } else {
            0nat
        }),
    decreases to - offset,
{
    line_end_is_the_first(patch, offset);
    if to - 1 > offset {
        a_line_counts_once(patch, from, offset, to - 1, kind);
        assert(patch[to - 2] != 10);
    }
}

/// Whether a text is plain ASCII on one line.
spec fn is_plain(text: Seq<char>) -> bool {
    &&& 0 < text.len() <= MAX_HEADER
    &&& forall|i: int| 0 <= i < text.len() ==> ' ' <= #[trigger] text[i] <= '~'
}

proof fn plain_bytes(text: Seq<char>)
    requires
        is_plain(text),
    ensures
        utf8(text).len() == text.len(),
        forall|i: int| 0 <= i < text.len() ==> #[trigger] utf8(text)[i] == text[i] as u8,
        forall|i: int| 0 <= i < text.len() ==> (#[trigger] text[i]) as u8 != 10,
{
    assert(is_ascii_chars(text));
    is_ascii_chars_encode_utf8(text);
}

proof fn starting_is_reading(patch: Seq<u8>, offset: int, text: Seq<char>)
    requires
        begins_line(patch, offset),
        is_plain(text),
    ensures
        starts(line_text(patch, offset, line_end(patch, offset)), utf8(text)) == line_reads(
            patch,
            offset,
            text,
        ),
{
    plain_bytes(text);
    line_end_is_the_first(patch, offset);
    let end = line_end(patch, offset);
    let line = line_text(patch, offset, end);
    let bytes = utf8(text);
    assert forall|i: int| 0 <= i < line.len() implies #[trigger] line[i] == patch[offset + i] by {}
    if starts(line, bytes) {
        assert forall|i: int| 0 <= i < text.len() implies #[trigger] patch[offset + i] == text[i] as u8 by {
            assert(line.take(bytes.len() as int)[i] == bytes[i]);
            assert(line[i] == patch[offset + i]);
        }
    }
    if line_reads(patch, offset, text) {
        let last = text.len() - 1;
        assert(patch[offset + last] == text[last] as u8);
        if end - 1 < offset + text.len() {
            assert(end - 1 >= offset);
            if end < patch.len() || patch[end - 1] == 10 {
                let i = end - 1 - offset;
                if i < text.len() {
                    assert(patch[offset + i] == text[i] as u8);
                }
            }
        }
        assert(end >= offset + text.len());
        assert(line.len() >= text.len()) by {
            if end == offset + text.len() {
                assert(patch[offset + last] != 10);
            }
        }
        assert(line.take(bytes.len() as int) =~= bytes) by {
            assert forall|i: int| 0 <= i < bytes.len() implies line.take(bytes.len() as int)[i]
                == bytes[i] by {
                assert(line[i] == patch[offset + i]);
            }
        }
    }
}

proof fn being_is_being(patch: Seq<u8>, offset: int, text: Seq<char>)
    requires
        begins_line(patch, offset),
        is_plain(text),
        text.len() < MAX_HEADER - 1,
    ensures
        (line_text(patch, offset, line_end(patch, offset)) == utf8(text)) == line_is(
            patch,
            offset,
            text,
        ),
{
    plain_bytes(text);
    starting_is_reading(patch, offset, text);
    line_end_is_the_first(patch, offset);
    let end = line_end(patch, offset);
    let line = line_text(patch, offset, end);
    if line == utf8(text) {
        assert(starts(line, utf8(text))) by {
            assert(line.take(line.len() as int) =~= line);
        }
        assert(end - offset <= MAX_HEADER);
        if end == patch.len() && patch[end - 1] != 10 {
            assert(line.len() == end - offset);
        } else {
            assert(patch[end - 1] == 10);
            assert(line.len() == end - offset - 1);
        }
    }
    if line_is(patch, offset, text) {
        assert(starts(line, utf8(text)));
        let stop = offset + text.len();
        if stop < patch.len() {
            assert(patch[stop] == 10);
            if end - 1 > stop {
                assert(patch[stop] != 10);
            }
            assert(end > stop) by {
                if end <= stop {
                    let i = end - 1 - offset;
                    assert(patch[offset + i] == text[i] as u8);
                    assert(patch[end - 1] == 10);
                }
            }
            assert(end - 1 == stop);
            assert(line.len() == text.len());
        } else {
            assert(end == patch.len()) by {
                if end < patch.len() {
                    let i = end - 1 - offset;
                    assert(patch[offset + i] == text[i] as u8);
                }
            }
            let i = text.len() - 1;
            assert(patch[offset + i] == text[i] as u8);
            assert(line.len() == text.len());
        }
        assert(line =~= line.take(text.len() as int));
    }
}

proof fn literals_are_plain()
    ensures
        is_plain("diff --git "@),
        is_plain("old mode "@),
        is_plain("new mode "@),
        is_plain("new file mode "@),
        is_plain("deleted file mode "@),
        is_plain("index "@),
        is_plain("rename from "@),
        is_plain("rename to "@),
        is_plain("copy from "@),
        is_plain("copy to "@),
        is_plain("GIT binary patch"@),
        is_plain("Binary files "@),
        is_plain("@@ "@),
        is_plain("+"@),
        is_plain("-"@),
        is_plain("new file mode 100"@),
        is_plain("deleted file mode 100"@),
        "GIT binary patch"@.len() < 100,
{
    reveal_strlit("diff --git ");
    reveal_strlit("old mode ");
    reveal_strlit("new mode ");
    reveal_strlit("new file mode ");
    reveal_strlit("deleted file mode ");
    reveal_strlit("index ");
    reveal_strlit("rename from ");
    reveal_strlit("rename to ");
    reveal_strlit("copy from ");
    reveal_strlit("copy to ");
    reveal_strlit("GIT binary patch");
    reveal_strlit("Binary files ");
    reveal_strlit("@@ ");
    reveal_strlit("+");
    reveal_strlit("-");
    reveal_strlit("new file mode 100");
    reveal_strlit("deleted file mode 100");
}

/// The bytes that tell the lines of a record apart.
proof fn lines_begin_apart(patch: Seq<u8>, p: int)
    ensures
        line_reads(patch, p, "diff --git "@) ==> patch[p] == 100 && patch[p + 1] == 105,
        line_reads(patch, p, "old mode "@) ==> patch[p] == 111,
        line_reads(patch, p, "new mode "@) ==> patch[p] == 110 && patch[p + 4] == 109,
        line_reads(patch, p, "new file mode "@) ==> patch[p] == 110 && patch[p + 4] == 102,
        line_reads(patch, p, "deleted file mode "@) ==> patch[p] == 100 && patch[p + 1] == 101,
        line_reads(patch, p, "index "@) ==> patch[p] == 105,
        line_reads(patch, p, "rename from "@) ==> patch[p] == 114 && patch[p + 7] == 102,
        line_reads(patch, p, "rename to "@) ==> patch[p] == 114 && patch[p + 7] == 116,
        line_reads(patch, p, "copy from "@) ==> patch[p] == 99 && patch[p + 5] == 102,
        line_reads(patch, p, "copy to "@) ==> patch[p] == 99 && patch[p + 5] == 116,
        line_reads(patch, p, "GIT binary patch"@) ==> patch[p] == 71,
        line_reads(patch, p, "Binary files "@) ==> patch[p] == 66,
        line_reads(patch, p, "@@ "@) ==> patch[p] == 64,
        line_reads(patch, p, "+"@) <==> begins_line(patch, p) && patch[p] == 43,
        line_reads(patch, p, "-"@) <==> begins_line(patch, p) && patch[p] == 45,
{
    reveal_strlit("diff --git ");
    reveal_strlit("old mode ");
    reveal_strlit("new mode ");
    reveal_strlit("new file mode ");
    reveal_strlit("deleted file mode ");
    reveal_strlit("index ");
    reveal_strlit("rename from ");
    reveal_strlit("rename to ");
    reveal_strlit("copy from ");
    reveal_strlit("copy to ");
    reveal_strlit("GIT binary patch");
    reveal_strlit("Binary files ");
    reveal_strlit("@@ ");
    reveal_strlit("+");
    reveal_strlit("-");
    assert(patch[p + 0] == patch[p]);
    if line_reads(patch, p, "diff --git "@) {
        assert(patch[p + 0] == "diff --git "@[0] as u8 && patch[p + 1] == "diff --git "@[1] as u8);
    }
    if line_reads(patch, p, "old mode "@) {
        assert(patch[p + 0] == "old mode "@[0] as u8);
    }
    if line_reads(patch, p, "new mode "@) {
        assert(patch[p + 0] == "new mode "@[0] as u8 && patch[p + 4] == "new mode "@[4] as u8);
    }
    if line_reads(patch, p, "new file mode "@) {
        assert(patch[p + 0] == "new file mode "@[0] as u8 && patch[p + 4] == "new file mode "@[4] as u8);
    }
    if line_reads(patch, p, "deleted file mode "@) {
        assert(patch[p + 0] == "deleted file mode "@[0] as u8 && patch[p + 1]
            == "deleted file mode "@[1] as u8);
    }
    if line_reads(patch, p, "index "@) {
        assert(patch[p + 0] == "index "@[0] as u8);
    }
    if line_reads(patch, p, "rename from "@) {
        assert(patch[p + 0] == "rename from "@[0] as u8 && patch[p + 7] == "rename from "@[7] as u8);
    }
    if line_reads(patch, p, "rename to "@) {
        assert(patch[p + 0] == "rename to "@[0] as u8 && patch[p + 7] == "rename to "@[7] as u8);
    }
    if line_reads(patch, p, "copy from "@) {
        assert(patch[p + 0] == "copy from "@[0] as u8 && patch[p + 5] == "copy from "@[5] as u8);
    }
    if line_reads(patch, p, "copy to "@) {
        assert(patch[p + 0] == "copy to "@[0] as u8 && patch[p + 5] == "copy to "@[5] as u8);
    }
    if line_reads(patch, p, "GIT binary patch"@) {
        assert(patch[p + 0] == "GIT binary patch"@[0] as u8);
    }
    if line_reads(patch, p, "Binary files "@) {
        assert(patch[p + 0] == "Binary files "@[0] as u8);
    }
    if line_reads(patch, p, "@@ "@) {
        assert(patch[p + 0] == "@@ "@[0] as u8);
    }
    if line_reads(patch, p, "+"@) {
        assert(patch[p + 0] == "+"@[0] as u8);
    }
    if line_reads(patch, p, "-"@) {
        assert(patch[p + 0] == "-"@[0] as u8);
    }
}

proof fn lines_are_read(patch: Seq<u8>, offset: int)
    requires
        begins_line(patch, offset),
    ensures
        ({
            let line = line_text(patch, offset, line_end(patch, offset));
            &&& starts(line, utf8("diff --git "@)) == line_reads(patch, offset, "diff --git "@)
            &&& starts(line, utf8("old mode "@)) == line_reads(patch, offset, "old mode "@)
            &&& starts(line, utf8("new mode "@)) == line_reads(patch, offset, "new mode "@)
            &&& starts(line, utf8("new file mode "@)) == line_reads(patch, offset, "new file mode "@)
            &&& starts(line, utf8("deleted file mode "@)) == line_reads(patch, offset, "deleted file mode "@)
            &&& starts(line, utf8("index "@)) == line_reads(patch, offset, "index "@)
            &&& starts(line, utf8("rename from "@)) == line_reads(patch, offset, "rename from "@)
            &&& starts(line, utf8("rename to "@)) == line_reads(patch, offset, "rename to "@)
            &&& starts(line, utf8("copy from "@)) == line_reads(patch, offset, "copy from "@)
            &&& starts(line, utf8("copy to "@)) == line_reads(patch, offset, "copy to "@)
            &&& starts(line, utf8("Binary files "@)) == line_reads(patch, offset, "Binary files "@)
            &&& starts(line, utf8("@@ "@)) == line_reads(patch, offset, "@@ "@)
            &&& starts(line, utf8("+"@)) == line_reads(patch, offset, "+"@)
            &&& starts(line, utf8("-"@)) == line_reads(patch, offset, "-"@)
            &&& starts(line, utf8("new file mode 100"@)) == line_reads(
                patch,
                offset,
                "new file mode 100"@,
            )
            &&& starts(line, utf8("deleted file mode 100"@)) == line_reads(
                patch,
                offset,
                "deleted file mode 100"@,
            )
            &&& (line == utf8("GIT binary patch"@)) == line_is(patch, offset, "GIT binary patch"@)
        }),
{
    literals_are_plain();
    starting_is_reading(patch, offset, "diff --git "@);
    starting_is_reading(patch, offset, "old mode "@);
    starting_is_reading(patch, offset, "new mode "@);
    starting_is_reading(patch, offset, "new file mode "@);
    starting_is_reading(patch, offset, "deleted file mode "@);
    starting_is_reading(patch, offset, "index "@);
    starting_is_reading(patch, offset, "rename from "@);
    starting_is_reading(patch, offset, "rename to "@);
    starting_is_reading(patch, offset, "copy from "@);
    starting_is_reading(patch, offset, "copy to "@);
    starting_is_reading(patch, offset, "Binary files "@);
    starting_is_reading(patch, offset, "@@ "@);
    starting_is_reading(patch, offset, "+"@);
    starting_is_reading(patch, offset, "-"@);
    starting_is_reading(patch, offset, "new file mode 100"@);
    starting_is_reading(patch, offset, "deleted file mode 100"@);
    being_is_being(patch, offset, "GIT binary patch"@);
}

proof fn no_line_begins_within(patch: Seq<u8>, offset: int, p: int)
    requires
        begins_line(patch, offset),
        offset < p < line_end(patch, offset),
    ensures
        !begins_line(patch, p),
        !says_binary(patch, p),
        !says_permissions(patch, p),
        stated_kind(patch, p) is None,
        stated_path(patch, p) is None,
        stated_previous(patch, p) is None,
        stated_regular(patch, p) is None,
        !heads_hunk(patch, p),
{
    line_end_is_the_first(patch, offset);
    assert(patch[p - 1] != 10);
    reveal(stated_path);
    reveal(stated_previous);
    reveal(stated_regular);
}

proof fn some_line(patch: Seq<u8>, from: int, to: int)
    requires
        0 <= from,
    ensures
        lines_of(patch, from, to, hunk_headers(patch)) > 0 <==> is_in_hunks(patch, from, to),
    decreases to - from,
{
    if from < to {
        some_line(patch, from, to - 1);
        if heads_hunk(patch, to - 1) {
            assert(is_in_hunks(patch, from, to));
        }
        if is_in_hunks(patch, from, to - 1) {
            let q = choose|q: int| from <= q < to - 1 && #[trigger] heads_hunk(patch, q);
            assert(from <= q < to && heads_hunk(patch, q));
        }
        if is_in_hunks(patch, from, to) {
            let q = choose|q: int| from <= q < to && #[trigger] heads_hunk(patch, q);
            if q < to - 1 {
                assert(is_in_hunks(patch, from, to - 1));
            }
        }
    }
}

proof fn lines_are_bounded(patch: Seq<u8>, from: int, to: int, kind: spec_fn(int) -> bool)
    requires
        from <= to,
    ensures
        lines_of(patch, from, to, kind) <= to - from,
    decreases to - from,
{
    if from < to {
        lines_are_bounded(patch, from, to - 1, kind);
    }
}

/// What is found in a record with one more line was found before or is found in that line.
proof fn found_with_one_more(patch: Seq<u8>, from: int, offset: int)
    requires
        0 <= from <= offset,
        begins_line(patch, offset),
    ensures
        ({
            let end = line_end(patch, offset);
            &&& (exists|p: int| from <= p < end && #[trigger] says_binary(patch, p)) <==> (says_binary(
                patch,
                offset,
            ) || exists|p: int| from <= p < offset && #[trigger] says_binary(patch, p))
            &&& (exists|p: int| from <= p < end && #[trigger] says_permissions(patch, p)) <==> (
            says_permissions(patch, offset) || exists|p: int|
                from <= p < offset && #[trigger] says_permissions(patch, p))
        }),
{
    line_end_is_the_first(patch, offset);
    let end = line_end(patch, offset);
    if exists|p: int| from <= p < end && #[trigger] says_binary(patch, p) {
        let p = choose|p: int| from <= p < end && #[trigger] says_binary(patch, p);
        if p > offset {
            no_line_begins_within(patch, offset, p);
        }
    }
    if exists|p: int| from <= p < end && #[trigger] says_permissions(patch, p) {
        let p = choose|p: int| from <= p < end && #[trigger] says_permissions(patch, p);
        if p > offset {
            no_line_begins_within(patch, offset, p);
        }
    }
    if exists|p: int| from <= p < offset && #[trigger] says_binary(patch, p) {
        let p = choose|p: int| from <= p < offset && #[trigger] says_binary(patch, p);
        assert(from <= p < end && says_binary(patch, p));
    }
    if exists|p: int| from <= p < offset && #[trigger] says_permissions(patch, p) {
        let p = choose|p: int| from <= p < offset && #[trigger] says_permissions(patch, p);
        assert(from <= p < end && says_permissions(patch, p));
    }
}

proof fn what_a_line_changes(patch: Seq<u8>, e: Entry, offset: int)
    requires
        begins_line(patch, offset),
        !line_reads(patch, offset, "diff --git "@),
        entry_after_line(e, line_text(patch, offset, line_end(patch, offset)), offset as u64) is Ok,
    ensures
        ({
            let after = entry_after_line(
                e,
                line_text(patch, offset, line_end(patch, offset)),
                offset as u64,
            )->Ok_0;
            &&& after.start == e.start
            &&& after.binary == (e.binary || says_binary(patch, offset))
            &&& after.permission_change == (e.permission_change || says_permissions(patch, offset))
            &&& after.kind == (match stated_kind(patch, offset) {
                Some(kind) => kind,
                None => e.kind,
            })
            &&& after.regular == (match stated_regular(patch, offset) {
                Some(regular) => regular,
                None => e.regular,
            })
            &&& match stated_path(patch, offset) {
                Some(path) => path == Ok::<Seq<u8>, Seq<char>>(after.path),
                None => after.path == e.path,
            }
            &&& match stated_previous(patch, offset) {
                Some(path) => after.previous is Some && path == Ok::<Seq<u8>, Seq<char>>(
                    after.previous->0,
                ),
                None => after.previous == e.previous,
            }
            &&& after.hunks == (if heads_hunk(patch, offset) && e.hunks.len() < MAX_HUNKS {
                e.hunks.push((offset as u64 - e.start) as u64)
            } else {
                e.hunks
            })
            &&& after.additions == (if says_binary(patch, offset) {
                None
            } else if patch[offset] == 43 && e.hunks.len() > 0 {
                one_more(e.additions)
            } else {
                e.additions
            })
            &&& after.deletions == (if says_binary(patch, offset) {
                None
            } else if patch[offset] == 45 && e.hunks.len() > 0 {
                one_more(e.deletions)
            } else {
                e.deletions
            })
        }),
{
    reveal(stated_path);
    reveal(stated_previous);
    reveal(stated_regular);
    lines_are_read(patch, offset);
    lines_begin_apart(patch, offset);
}

proof fn counts_with_one_more(patch: Seq<u8>, e: Entry, after: Entry, from: int, offset: int)
    requires
        patch.len() <= u64::MAX,
        0 <= from <= offset,
        begins_line(patch, offset),
        counts_say(patch, e, from, offset),
        hunks_say(patch, e, from, offset),
        after.binary == (e.binary || says_binary(patch, offset)),
        after.additions == (if says_binary(patch, offset) {
            None
        } else if patch[offset] == 43 && e.hunks.len() > 0 {
            one_more(e.additions)
        } else {
            e.additions
        }),
        after.deletions == (if says_binary(patch, offset) {
            None
        } else if patch[offset] == 45 && e.hunks.len() > 0 {
            one_more(e.deletions)
        } else {
            e.deletions
        }),
    ensures
        counts_say(patch, after, from, line_end(patch, offset)),
{
    let end = line_end(patch, offset);
    let plus = behind_header(patch, from, 43);
    let minus = behind_header(patch, from, 45);
    line_end_is_the_first(patch, offset);
    a_line_counts_once(patch, from, offset, end, plus);
    a_line_counts_once(patch, from, offset, end, minus);
    lines_are_bounded(patch, from, offset, plus);
    lines_are_bounded(patch, from, offset, minus);
    some_line(patch, from, offset);
    assert(plus(offset) == (patch[offset] == 43 && e.hunks.len() > 0));
    assert(minus(offset) == (patch[offset] == 45 && e.hunks.len() > 0));
    if !after.binary {
        assert(after.additions is Some && after.deletions is Some);
        assert(after.additions->0 == e.additions->0 + (if plus(offset) {
            1int
        } else {
            0int
        }));
        assert(after.deletions->0 == e.deletions->0 + (if minus(offset) {
            1int
        } else {
            0int
        }));
    }
}

proof fn kind_with_one_more(patch: Seq<u8>, e: Entry, after: Entry, from: int, offset: int)
    requires
        0 <= from <= offset,
        begins_line(patch, offset),
        kind_says(patch, e, from, offset),
        after.kind == (match stated_kind(patch, offset) {
            Some(kind) => kind,
            None => e.kind,
        }),
    ensures
        kind_says(patch, after, from, line_end(patch, offset)),
{
    let end = line_end(patch, offset);
    line_end_is_the_first(patch, offset);
    if forall|p: int| from <= p < end ==> (#[trigger] stated_kind(patch, p)) is None {
        assert(stated_kind(patch, offset) is None);
        assert forall|p: int| from <= p < offset implies (#[trigger] stated_kind(patch, p)) is None by {}
        assert(after.kind == ChangeKind::Modified);
    }
    assert forall|p: int|
        from <= p < end && (#[trigger] stated_kind(patch, p)) is Some && (forall|q: int|
            p < q < end ==> (#[trigger] stated_kind(patch, q)) is None) implies after.kind
        == stated_kind(patch, p)->0 by {
        if p > offset {
            no_line_begins_within(patch, offset, p);
        } else if p < offset {
            assert(stated_kind(patch, offset) is None);
            assert forall|q: int| p < q < offset implies (#[trigger] stated_kind(patch, q)) is None by {}
        }
    }
}

proof fn regular_with_one_more(patch: Seq<u8>, e: Entry, after: Entry, from: int, offset: int)
    requires
        0 <= from <= offset,
        begins_line(patch, offset),
        regular_says(patch, e, from, offset),
        after.regular == (match stated_regular(patch, offset) {
            Some(regular) => regular,
            None => e.regular,
        }),
    ensures
        regular_says(patch, after, from, line_end(patch, offset)),
{
    let end = line_end(patch, offset);
    line_end_is_the_first(patch, offset);
    if forall|p: int| from <= p < end ==> (#[trigger] stated_regular(patch, p)) is None {
        assert(stated_regular(patch, offset) is None);
        assert forall|p: int| from <= p < offset implies (#[trigger] stated_regular(patch, p)) is None by {}
    }
    assert forall|p: int|
        from <= p < end && (#[trigger] stated_regular(patch, p)) is Some && (forall|q: int|
            p < q < end ==> (#[trigger] stated_regular(patch, q)) is None) implies stated_regular(patch, p)
        == Some(after.regular) by {
        if p > offset {
            no_line_begins_within(patch, offset, p);
        } else if p < offset {
            assert(stated_regular(patch, offset) is None);
            assert forall|q: int| p < q < offset implies (#[trigger] stated_regular(patch, q)) is None by {}
        }
    }
}

proof fn paths_with_one_more(patch: Seq<u8>, e: Entry, after: Entry, from: int, offset: int)
    requires
        0 <= from <= offset,
        begins_line(patch, offset),
        path_says(patch, e, from, offset),
        previous_says(patch, e, from, offset),
        match stated_path(patch, offset) {
            Some(path) => path == Ok::<Seq<u8>, Seq<char>>(after.path),
            None => after.path == e.path,
        },
        match stated_previous(patch, offset) {
            Some(path) => after.previous is Some && path == Ok::<Seq<u8>, Seq<char>>(
                after.previous->0,
            ),
            None => after.previous == e.previous,
        },
    ensures
        path_says(patch, after, from, line_end(patch, offset)),
        previous_says(patch, after, from, line_end(patch, offset)),
{
    let end = line_end(patch, offset);
    line_end_is_the_first(patch, offset);
    if forall|p: int| from <= p < end ==> (#[trigger] stated_path(patch, p)) is None {
        assert(stated_path(patch, offset) is None);
        assert forall|p: int| from <= p < offset implies (#[trigger] stated_path(patch, p)) is None by {}
    }
    if forall|p: int| from <= p < end ==> (#[trigger] stated_previous(patch, p)) is None {
        assert(stated_previous(patch, offset) is None);
        assert forall|p: int| from <= p < offset implies (#[trigger] stated_previous(patch, p)) is None by {}
    }
    assert forall|p: int|
        from <= p < end && (#[trigger] stated_path(patch, p)) is Some && (forall|q: int|
            p < q < end ==> (#[trigger] stated_path(patch, q)) is None) implies stated_path(patch, p)
        == Some(Ok::<Seq<u8>, Seq<char>>(after.path)) by {
        if p > offset {
            no_line_begins_within(patch, offset, p);
        } else if p < offset {
            assert(stated_path(patch, offset) is None);
            assert forall|q: int| p < q < offset implies (#[trigger] stated_path(patch, q)) is None by {}
        }
    }
    assert forall|p: int|
        from <= p < end && (#[trigger] stated_previous(patch, p)) is Some && (forall|q: int|
            p < q < end ==> (#[trigger] stated_previous(patch, q)) is None) implies after.previous is Some
        && stated_previous(patch, p) == Some(Ok::<Seq<u8>, Seq<char>>(after.previous->0)) by {
        if p > offset {
            no_line_begins_within(patch, offset, p);
        } else if p < offset {
            assert(stated_previous(patch, offset) is None);
            assert forall|q: int| p < q < offset implies (#[trigger] stated_previous(patch, q)) is None by {}
        }
    }
}

proof fn hunks_with_one_more(patch: Seq<u8>, e: Entry, after: Entry, from: int, offset: int)
    requires
        patch.len() <= u64::MAX,
        0 <= from <= offset,
        begins_line(patch, offset),
        hunks_say(patch, e, from, offset),
        after.hunks == (if heads_hunk(patch, offset) && e.hunks.len() < MAX_HUNKS {
            e.hunks.push((offset - from) as u64)
        } else {
            e.hunks
        }),
    ensures
        hunks_say(patch, after, from, line_end(patch, offset)),
{
    let end = line_end(patch, offset);
    line_end_is_the_first(patch, offset);
    a_line_counts_once(patch, from, offset, end, hunk_headers(patch));
    assert forall|k: int| 0 <= k < after.hunks.len() implies from + (#[trigger] after.hunks[k]) < end
        && heads_hunk(patch, from + after.hunks[k]) by {
        if k < e.hunks.len() {
            assert(after.hunks[k] == e.hunks[k]);
        }
    }
    assert forall|k: int, l: int| 0 <= k < l < after.hunks.len() implies (#[trigger] after.hunks[k]) < (
    #[trigger] after.hunks[l]) by {
        assert(after.hunks[k] == e.hunks[k]);
        if l < e.hunks.len() {
            assert(after.hunks[l] == e.hunks[l]);
        }
    }
}

proof fn one_more_line(patch: Seq<u8>, e: Entry, after: Entry, offset: int)
    requires
        patch.len() <= u64::MAX,
        0 <= e.start <= offset,
        begins_line(patch, offset),
        record_says(patch, e, e.start as int, offset),
        !line_reads(patch, offset, "diff --git "@),
        entry_after_line(e, line_text(patch, offset, line_end(patch, offset)), offset as u64) == Ok::<
            Entry,
            Seq<char>,
        >(after),
    ensures
        after.start == e.start,
        record_says(patch, after, e.start as int, line_end(patch, offset)),
{
    reveal(record_says);
    let from = e.start as int;
    what_a_line_changes(patch, e, offset);
    found_with_one_more(patch, from, offset);
    counts_with_one_more(patch, e, after, from, offset);
    kind_with_one_more(patch, e, after, from, offset);
    hunks_with_one_more(patch, e, after, from, offset);
    paths_with_one_more(patch, e, after, from, offset);
    regular_with_one_more(patch, e, after, from, offset);
}

/// Whether the entries so far say what their records say, the last record still open at `offset`, and each
/// header before it begins one.
spec fn records_say(patch: Seq<u8>, entries: Seq<Entry>, offset: int) -> bool {
    &&& forall|i: int|
        0 <= i < entries.len() - 1 ==> record_says(
            patch,
            #[trigger] entries[i],
            entries[i].start as int,
            entries[i].start + entries[i].bytes,
        )
    &&& forall|i: int|
        0 <= i < entries.len() ==> entries[i].start < offset && line_reads(
            patch,
            (#[trigger] entries[i]).start as int,
            "diff --git "@,
        )
    &&& entries.len() > 0 ==> record_says(
        patch,
        entries.last(),
        entries.last().start as int,
        offset,
    )
    &&& forall|p: int|
        0 <= p < offset && #[trigger] line_reads(patch, p, "diff --git "@) ==> exists|i: int|
            0 <= i < entries.len() && (#[trigger] entries[i]).start == p
}

proof fn a_fresh_record(patch: Seq<u8>, offset: int, e: Entry)
    requires
        patch.len() <= u64::MAX,
        begins_line(patch, offset),
        line_reads(patch, offset, "diff --git "@),
        e.start == offset,
        !e.binary && !e.permission_change,
        e.kind == ChangeKind::Modified,
        e.additions == Some(0u64) && e.deletions == Some(0u64),
        e.hunks.len() == 0,
        !e.regular,
        names_at(patch, offset) is Ok,
        e.path == names_at(patch, offset)->Ok_0.1,
        e.previous == ({
            let names = names_at(patch, offset)->Ok_0;
            if names.0 == names.1 {
                None
            } else {
                Some(names.0)
            }
        }),
    ensures
        record_says(patch, e, offset, line_end(patch, offset)),
{
    reveal(record_says);
    let end = line_end(patch, offset);
    line_end_is_the_first(patch, offset);
    lines_begin_apart(patch, offset);
    a_line_counts_once(patch, offset, offset, end, behind_header(patch, offset, 43));
    a_line_counts_once(patch, offset, offset, end, behind_header(patch, offset, 45));
    a_line_counts_once(patch, offset, offset, end, hunk_headers(patch));
    found_with_one_more(patch, offset, offset);
    assert(stated_kind(patch, offset) is None);
    assert(stated_path(patch, offset) is None && stated_previous(patch, offset) is None) by {
        reveal(stated_path);
        reveal(stated_previous);
    }
    assert forall|p: int| offset <= p < end implies (#[trigger] stated_kind(patch, p)) is None by {
        if p > offset {
            no_line_begins_within(patch, offset, p);
        }
    }
    assert(stated_regular(patch, offset) is None) by {
        reveal(stated_regular);
    }
    assert forall|p: int| offset <= p < end implies (#[trigger] stated_regular(patch, p)) is None by {
        if p > offset {
            no_line_begins_within(patch, offset, p);
        }
    }
    assert forall|p: int| offset <= p < end implies (#[trigger] stated_path(patch, p)) is None by {
        if p > offset {
            no_line_begins_within(patch, offset, p);
        }
    }
    assert forall|p: int| offset <= p < end implies (#[trigger] stated_previous(patch, p)) is None by {
        if p > offset {
            no_line_begins_within(patch, offset, p);
        }
    }
}

proof fn a_header_says(patch: Seq<u8>, offset: int, entries: Seq<Entry>, next: Seq<Entry>, fresh: Entry)
    requires
        patch.len() <= u64::MAX,
        begins_line(patch, offset),
        records_say(patch, entries, offset),
        line_reads(patch, offset, "diff --git "@),
        next == closed_at(entries, offset as u64).push(fresh),
        fresh.start == offset,
        record_says(patch, fresh, offset, line_end(patch, offset)),
    ensures
        records_say(patch, next, line_end(patch, offset)),
{
    let end = line_end(patch, offset);
    let closed = closed_at(entries, offset as u64);
    line_end_is_the_first(patch, offset);
    assert(closed.len() == entries.len());
    assert forall|i: int| 0 <= i < next.len() - 1 implies record_says(
        patch,
        #[trigger] next[i],
        next[i].start as int,
        next[i].start + next[i].bytes,
    ) by {
        assert(next[i] == closed[i]);
        if i < entries.len() - 1 {
            assert(closed[i] == entries[i]);
        } else {
            assert(entries[i] == entries.last());
            closing_says(patch, entries.last(), closed[i], entries.last().start as int, offset);
        }
    }
    assert forall|i: int| 0 <= i < next.len() implies next[i].start < end && line_reads(
        patch,
        (#[trigger] next[i]).start as int,
        "diff --git "@,
    ) by {
        if i < next.len() - 1 {
            assert(next[i].start == entries[i].start);
        }
    }
    assert forall|p: int| 0 <= p < end && #[trigger] line_reads(patch, p, "diff --git "@) implies exists|
        i: int,
    |
        0 <= i < next.len() && (#[trigger] next[i]).start == p by {
        if p > offset {
            no_line_begins_within(patch, offset, p);
        } else if p == offset {
            assert(next[next.len() - 1].start == p);
        } else {
            let i = choose|i: int| 0 <= i < entries.len() && (#[trigger] entries[i]).start == p;
            assert(next[i].start == p);
        }
    }
}

proof fn closing_says(patch: Seq<u8>, open: Entry, closed: Entry, from: int, to: int)
    requires
        record_says(patch, open, from, to),
        closed.binary == open.binary,
        closed.permission_change == open.permission_change,
        closed.additions == open.additions,
        closed.deletions == open.deletions,
        closed.kind == open.kind,
        closed.hunks == open.hunks,
        closed.path == open.path,
        closed.previous == open.previous,
        closed.regular == open.regular,
    ensures
        record_says(patch, closed, from, to),
{
    reveal(record_says);
}

proof fn another_line_says(patch: Seq<u8>, offset: int, entries: Seq<Entry>, next: Seq<Entry>, last: Entry)
    requires
        patch.len() <= u64::MAX,
        begins_line(patch, offset),
        records_say(patch, entries, offset),
        !line_reads(patch, offset, "diff --git "@),
        entries.len() > 0,
        next == entries.drop_last().push(last),
        last.start == entries.last().start,
        record_says(patch, last, last.start as int, line_end(patch, offset)),
    ensures
        records_say(patch, next, line_end(patch, offset)),
{
    let end = line_end(patch, offset);
    line_end_is_the_first(patch, offset);
    assert forall|i: int| 0 <= i < next.len() - 1 implies record_says(
        patch,
        #[trigger] next[i],
        next[i].start as int,
        next[i].start + next[i].bytes,
    ) by {
        assert(next[i] == entries[i]);
    }
    assert forall|i: int| 0 <= i < next.len() implies next[i].start < end && line_reads(
        patch,
        (#[trigger] next[i]).start as int,
        "diff --git "@,
    ) by {
        assert(next[i].start == entries[i].start);
    }
    assert forall|p: int| 0 <= p < end && #[trigger] line_reads(patch, p, "diff --git "@) implies exists|
        i: int,
    |
        0 <= i < next.len() && (#[trigger] next[i]).start == p by {
        if p > offset {
            no_line_begins_within(patch, offset, p);
        } else {
            let i = choose|i: int| 0 <= i < entries.len() && (#[trigger] entries[i]).start == p;
            assert(next[i].start == p);
        }
    }
}

proof fn one_line_says(patch: Seq<u8>, offset: int, entries: Seq<Entry>)
    requires
        patch.len() <= u64::MAX,
        begins_line(patch, offset),
        records_say(patch, entries, offset),
        entries_after_line(
            entries,
            line_text(patch, offset, line_end(patch, offset)),
            offset as u64,
            line_end(patch, offset) - offset,
        ) is Ok,
    ensures
        records_say(
            patch,
            entries_after_line(
                entries,
                line_text(patch, offset, line_end(patch, offset)),
                offset as u64,
                line_end(patch, offset) - offset,
            )->Ok_0,
            line_end(patch, offset),
        ),
{
    let end = line_end(patch, offset);
    let text = line_text(patch, offset, end);
    let next = entries_after_line(entries, text, offset as u64, end - offset)->Ok_0;
    literals_are_plain();
    starting_is_reading(patch, offset, "diff --git "@);
    if line_reads(patch, offset, "diff --git "@) {
        header_begins_an_entry(entries, text, offset as u64, end - offset);
        assert(names_at(patch, offset) == header_names(text.skip(11))) by {
            reveal(names_at);
        }
        a_fresh_record(patch, offset, next.last());
        a_header_says(patch, offset, entries, next, next.last());
    } else if entries.len() > 0 {
        line_changes_the_last(entries, text, offset as u64, end - offset);
        let last = entries.last();
        assert(entries[entries.len() - 1].start < offset);
        one_more_line(patch, last, next.last(), offset);
        another_line_says(patch, offset, entries, next, next.last());
    } else {
        line_before_headers(entries, text, offset as u64, end - offset);
        line_end_is_the_first(patch, offset);
        assert forall|p: int| 0 <= p < end && #[trigger] line_reads(patch, p, "diff --git "@) implies exists|
            i: int,
        |
            0 <= i < next.len() && (#[trigger] next[i]).start == p by {
            if p > offset {
                no_line_begins_within(patch, offset, p);
            } else if p < offset {
                let i = choose|i: int| 0 <= i < entries.len() && (#[trigger] entries[i]).start == p;
            }
        }
    }
}

proof fn header_begins_an_entry(entries: Seq<Entry>, text: Seq<u8>, offset: u64, length: int)
    requires
        starts(text, utf8("diff --git "@)),
        entries_after_line(entries, text, offset, length) is Ok,
    ensures
        ({
            let next = entries_after_line(entries, text, offset, length)->Ok_0;
            let e = next.last();
            &&& next == closed_at(entries, offset).push(e)
            &&& e.start == offset
            &&& !e.binary && !e.permission_change
            &&& e.kind == ChangeKind::Modified
            &&& e.additions == Some(0u64) && e.deletions == Some(0u64)
            &&& e.hunks.len() == 0
            &&& !e.regular
            &&& header_names(text.skip(11)) is Ok
            &&& e.path == header_names(text.skip(11))->Ok_0.1
            &&& e.previous == ({
                let names = header_names(text.skip(11))->Ok_0;
                if names.0 == names.1 {
                    None
                } else {
                    Some(names.0)
                }
            })
        }),
{
    reveal(entries_after_line);
}

proof fn line_changes_the_last(entries: Seq<Entry>, text: Seq<u8>, offset: u64, length: int)
    requires
        !starts(text, utf8("diff --git "@)),
        entries.len() > 0,
        entries_after_line(entries, text, offset, length) is Ok,
    ensures
        ({
            let next = entries_after_line(entries, text, offset, length)->Ok_0;
            &&& entry_after_line(entries.last(), text, offset) == Ok::<Entry, Seq<char>>(next.last())
            &&& next == entries.drop_last().push(next.last())
        }),
{
    reveal(entries_after_line);
}

proof fn line_before_headers(entries: Seq<Entry>, text: Seq<u8>, offset: u64, length: int)
    requires
        !starts(text, utf8("diff --git "@)),
        entries.len() == 0,
    ensures
        entries_after_line(entries, text, offset, length) == Ok::<Seq<Entry>, Seq<char>>(entries),
{
    reveal(entries_after_line);
}

proof fn reading_says(patch: Seq<u8>, offset: int, entries: Seq<Entry>)
    requires
        0 <= offset <= patch.len() <= u64::MAX,
        offset == patch.len() || begins_line(patch, offset),
        records_say(patch, entries, offset),
        entries_from(patch, offset, entries) is Ok,
    ensures
        records_say(patch, entries_from(patch, offset, entries)->Ok_0, patch.len() as int),
    decreases patch.len() - offset,
{
    if offset < patch.len() {
        line_end_is_the_first(patch, offset);
        let end = line_end(patch, offset);
        one_line_says(patch, offset, entries);
        reading_says(
            patch,
            end,
            entries_after_line(
                entries,
                line_text(patch, offset, end),
                offset as u64,
                end - offset,
            )->Ok_0,
        );
    }
}

proof fn index_records_say(patch: Seq<u8>, i: int)
    requires
        patch.len() <= u64::MAX,
        index_of(patch) is Ok,
        0 <= i < index_of(patch)->Ok_0.len(),
    ensures
        ({
            let e = index_of(patch)->Ok_0[i];
            &&& line_reads(patch, e.start as int, "diff --git "@)
            &&& record_says(patch, e, e.start as int, e.start + e.bytes)
        }),
{
    let open = entries_from(patch, 0, Seq::empty())->Ok_0;
    let entries = index_of(patch)->Ok_0;
    reading_says(patch, 0, Seq::empty());
    assert(entries.len() == open.len());
    if i < open.len() - 1 {
        assert(entries[i] == open[i]);
    } else {
        assert(open[i] == open.last());
        assert(entries[i].start == open.last().start);
        closing_says(
            patch,
            open.last(),
            entries[i],
            open.last().start as int,
            patch.len() as int,
        );
    }
}

proof fn parts_of_a_record(patch: Seq<u8>, e: Entry, from: int, to: int)
    requires
        record_says(patch, e, from, to),
    ensures
        flags_say(patch, e, from, to),
        counts_say(patch, e, from, to),
        kind_says(patch, e, from, to),
        hunks_say(patch, e, from, to),
        path_says(patch, e, from, to),
        previous_says(patch, e, from, to),
        regular_says(patch, e, from, to),
{
    reveal(record_says);
}

/// An index says of every changed file what the lines of its record say. The record begins at a header and
/// reaches to the next one. Unless a line calls the file binary, the additions are the lines behind the first
/// hunk header that begin with a plus sign, and the deletions those that begin with a minus sign. The
/// permissions changed where a line says so, the kind and the paths are those that are stated last, with the
/// paths of the header where none is stated, and every hunk header is listed where it stands.
pub proof fn an_index_says_what_the_patch_says(patch: Seq<u8>, i: int)
    requires
        patch.len() <= u64::MAX,
        index_of(patch) is Ok,
        0 <= i < index_of(patch)->Ok_0.len(),
    ensures
        ({
            let e = index_of(patch)->Ok_0[i];
            let from = e.start as int;
            let to = e.start + e.bytes;
            &&& line_reads(patch, from, "diff --git "@)
            &&& flags_say(patch, e, from, to)
            &&& counts_say(patch, e, from, to)
            &&& kind_says(patch, e, from, to)
            &&& hunks_say(patch, e, from, to)
            &&& path_says(patch, e, from, to)
            &&& previous_says(patch, e, from, to)
            &&& regular_says(patch, e, from, to)
        }),
{
    let e = index_of(patch)->Ok_0[i];
    index_records_say(patch, i);
    parts_of_a_record(patch, e, e.start as int, e.start + e.bytes);
}

/// Every header of a patch begins an entry: no changed file is left out.
pub proof fn an_index_has_every_file(patch: Seq<u8>, p: int)
    requires
        patch.len() <= u64::MAX,
        index_of(patch) is Ok,
        line_reads(patch, p, "diff --git "@),
    ensures
        exists|i: int| 0 <= i < index_of(patch)->Ok_0.len() && (#[trigger] index_of(patch)->Ok_0[i]).start == p,
{
    let open = entries_from(patch, 0, Seq::empty())->Ok_0;
    let entries = index_of(patch)->Ok_0;
    reading_says(patch, 0, Seq::empty());
    let i = choose|i: int| 0 <= i < open.len() && (#[trigger] open[i]).start == p;
    assert(entries[i].start == p);
}

} // verus!
