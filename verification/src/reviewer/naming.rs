//! Which file a header of a patch names.

use vstd::prelude::*;
use vstd::utf8::*;

use crate::reviewer::{
    below_side, blob_in, decoded, even_split, header_names, is_full_blob, is_hex_byte, splits_evenly,
    ChangeKind,
};

use crate::bytes::{
    first_from, found_at, join_path, path_components, path_names, split_at_byte, utf8,
};

verus! {

/// Whether a name can stand between two slashes of a plain path.
pub open spec fn is_plain_name(name: Seq<u8>) -> bool {
    &&& name.len() > 0
    &&& name != utf8("."@)
    &&& forall|i: int|
        0 <= i < name.len() ==> #[trigger] name[i] != 47 && name[i] != 34 && name[i] != 0
}

/// A path with these names: they stand one behind the other, with a slash between two.
pub open spec fn path_with(names: Seq<Seq<u8>>) -> Seq<u8>
    decreases names.len(),
{
    if names.len() == 0 {
        Seq::empty()
    } else if names.len() == 1 {
        names[0]
    } else {
        path_with(names.drop_last()) + seq![47u8] + names.last()
    }
}

/// The header that git writes for a file whose path stays the same: the path below `a`, a space, and the
/// path below `b`.
pub open spec fn plain_header(path: Seq<u8>) -> Seq<u8> {
    seq![97u8, 47u8] + path + seq![32u8, 98u8, 47u8] + path
}

proof fn split_of_name(name: Seq<u8>)
    requires
        forall|i: int| 0 <= i < name.len() ==> #[trigger] name[i] != 47,
    ensures
        split_at_byte(name, 47) == seq![name],
    decreases name.len(),
{
    if name.len() > 0 {
        split_of_name(name.drop_last());
        assert(name.drop_last().push(name.last()) =~= name);
        assert(seq![name.drop_last()].drop_last().push(name) =~= seq![name]);
    } else {
        assert(name =~= Seq::empty());
    }
}

proof fn split_is_not_empty(b: Seq<u8>)
    ensures
        split_at_byte(b, 47).len() > 0,
    decreases b.len(),
{
    if b.len() > 0 {
        split_is_not_empty(b.drop_last());
    }
}

proof fn split_with_one_more(b: Seq<u8>, name: Seq<u8>)
    requires
        forall|i: int| 0 <= i < name.len() ==> #[trigger] name[i] != 47,
    ensures
        split_at_byte(b + seq![47u8] + name, 47) == split_at_byte(b, 47).push(name),
    decreases name.len(),
{
    let whole = b + seq![47u8] + name;
    if name.len() == 0 {
        assert(whole.drop_last() =~= b);
        assert(name =~= Seq::empty());
    } else {
        split_with_one_more(b, name.drop_last());
        assert(whole.drop_last() =~= b + seq![47u8] + name.drop_last());
        assert(whole.last() == name.last());
        assert(name.drop_last().push(name.last()) =~= name);
        let before = split_at_byte(b, 47);
        assert(before.push(name.drop_last()).drop_last() =~= before);
    }
}

proof fn split_of_names(side: u8, names: Seq<Seq<u8>>)
    requires
        side != 47,
        names.len() > 0,
        forall|i: int| 0 <= i < names.len() ==> is_plain_name(#[trigger] names[i]),
    ensures
        split_at_byte(seq![side, 47u8] + path_with(names), 47) == seq![seq![side]] + names,
    decreases names.len(),
{
    if names.len() == 1 {
        split_of_name(seq![side]);
        split_with_one_more(seq![side], names[0]);
        assert(seq![side, 47u8] + names[0] =~= seq![side] + seq![47u8] + names[0]);
        assert(seq![seq![side]].push(names[0]) =~= seq![seq![side]] + names);
    } else {
        let earlier = names.drop_last();
        assert forall|i: int| 0 <= i < earlier.len() implies is_plain_name(#[trigger] earlier[i]) by {
            assert(earlier[i] == names[i]);
        }
        split_of_names(side, earlier);
        split_with_one_more(seq![side, 47u8] + path_with(earlier), names.last());
        assert(seq![side, 47u8] + path_with(names) =~= seq![side, 47u8] + path_with(earlier)
            + seq![47u8] + names.last());
        assert((seq![seq![side]] + earlier).push(names.last()) =~= seq![seq![side]] + names);
    }
}

proof fn all_names_stay(parts: Seq<Seq<u8>>)
    requires
        forall|i: int| 0 <= i < parts.len() ==> (#[trigger] parts[i]).len() > 0 && parts[i] != utf8("."@),
    ensures
        path_names(parts) == parts,
    decreases parts.len(),
{
    if parts.len() > 0 {
        all_names_stay(parts.drop_last());
        assert(parts.drop_last().push(parts.last()) =~= parts);
    } else {
        assert(parts =~= Seq::empty());
    }
}

proof fn slash_is_one_byte()
    ensures
        utf8("/"@) == seq![47u8],
        utf8("a"@) == seq![97u8],
        utf8("b"@) == seq![98u8],
        utf8("."@) == seq![46u8],
        utf8(" b/"@) == seq![32u8, 98u8, 47u8],
        utf8(" \"b/"@) == seq![32u8, 34u8, 98u8, 47u8],
{
    reveal_strlit("/");
    reveal_strlit("a");
    reveal_strlit("b");
    reveal_strlit(".");
    reveal_strlit(" b/");
    reveal_strlit(" \"b/");
    is_ascii_chars_encode_utf8("/"@);
    is_ascii_chars_encode_utf8("a"@);
    is_ascii_chars_encode_utf8("b"@);
    is_ascii_chars_encode_utf8("."@);
    is_ascii_chars_encode_utf8(" b/"@);
    is_ascii_chars_encode_utf8(" \"b/"@);
    assert(utf8("/"@) =~= seq![47u8]);
    assert(utf8("a"@) =~= seq![97u8]);
    assert(utf8("b"@) =~= seq![98u8]);
    assert(utf8("."@) =~= seq![46u8]);
    assert(utf8(" b/"@) =~= seq![32u8, 98u8, 47u8]);
    assert(utf8(" \"b/"@) =~= seq![32u8, 34u8, 98u8, 47u8]);
}

proof fn joining_is_writing(names: Seq<Seq<u8>>)
    ensures
        join_path(names) == path_with(names),
    decreases names.len(),
{
    slash_is_one_byte();
    if names.len() > 1 {
        joining_is_writing(names.drop_last());
    }
}

proof fn the_rest_below(side: u8, names: Seq<Seq<u8>>)
    requires
        side == 97 || side == 98,
        names.len() > 0,
        forall|i: int| 0 <= i < names.len() ==> is_plain_name(#[trigger] names[i]),
    ensures
        below_side(seq![side, 47u8] + path_with(names), seq![side]) == Ok::<Seq<u8>, Seq<char>>(
            path_with(names),
        ),
{
    slash_is_one_byte();
    let whole = seq![side, 47u8] + path_with(names);
    let parts = seq![seq![side]] + names;
    split_of_names(side, names);
    assert forall|i: int| 0 <= i < parts.len() implies (#[trigger] parts[i]).len() > 0 && parts[i]
        != utf8("."@) by {
        if i > 0 {
            assert(parts[i] == names[i - 1]);
        } else {
            assert(parts[0][0] == side);
        }
    }
    all_names_stay(parts);
    assert(whole[0] == side);
    assert(path_components(whole) == parts);
    assert(parts.skip(1) =~= names);
    joining_is_writing(names);
}

proof fn plain_paths_hold_no_quote(names: Seq<Seq<u8>>)
    requires
        forall|i: int| 0 <= i < names.len() ==> is_plain_name(#[trigger] names[i]),
    ensures
        forall|k: int|
            0 <= k < path_with(names).len() ==> #[trigger] path_with(names)[k] != 34 && path_with(
                names,
            )[k] != 0,
    decreases names.len(),
{
    if names.len() > 1 {
        let earlier = names.drop_last();
        assert forall|i: int| 0 <= i < earlier.len() implies is_plain_name(#[trigger] earlier[i]) by {
            assert(earlier[i] == names[i]);
        }
        plain_paths_hold_no_quote(earlier);
        let last = names.last();
        assert(is_plain_name(names[names.len() - 1]));
        let n = path_with(earlier).len();
        assert forall|k: int| 0 <= k < path_with(names).len() implies #[trigger] path_with(names)[k] != 34
            && path_with(names)[k] != 0 by {
            if k < n {
                assert(path_with(names)[k] == path_with(earlier)[k]);
            } else if k > n {
                assert(path_with(names)[k] == last[k - n - 1]);
            }
        }
    } else if names.len() == 1 {
        assert(is_plain_name(names[0]));
    }
}

proof fn never_found(b: Seq<u8>, needle: Seq<u8>, from: int)
    requires
        0 <= from,
        forall|i: int| from <= i <= b.len() ==> !(#[trigger] found_at(b, needle, i)),
    ensures
        first_from(b, needle, from) is None,
    decreases b.len() + 1 - from,
{
    if from <= b.len() {
        assert(!found_at(b, needle, from));
        never_found(b, needle, from + 1);
    }
}

proof fn the_only_split(header: Seq<u8>, at: int, from: int)
    requires
        0 <= from <= at < header.len(),
        splits_evenly(header, at),
        header.len() == 2 * at + 1,
    ensures
        even_split(header, from) == Some(at),
    decreases at - from,
{
    if from < at {
        if splits_evenly(header, from) {
            assert(header.subrange(2, from).len() == header.skip(from + 3).len());
        }
        the_only_split(header, at, from + 1);
    }
}

proof fn a_plain_header_is_split(path: Seq<u8>)
    requires
        forall|k: int| 0 <= k < path.len() ==> #[trigger] path[k] != 34 && path[k] != 0,
    ensures
        ({
            let header = plain_header(path);
            let at = path.len() as int + 2;
            &&& header.len() == 2 * at + 1
            &&& header[0] == 97
            &&& first_from(header, utf8(" \"b/"@), 0) is None
            &&& even_split(header, 0) == Some(at)
            &&& header.take(at) == seq![97u8, 47u8] + path
            &&& header.skip(at + 1) == seq![98u8, 47u8] + path
        }),
{
    let header = plain_header(path);
    let at: int = path.len() as int + 2;
    slash_is_one_byte();
    assert forall|k: int| 0 <= k < header.len() implies #[trigger] header[k] != 34 by {
        if 2 <= k < at {
            assert(header[k] == path[k - 2]);
        } else if at + 3 <= k {
            assert(header[k] == path[k - at - 3]);
        }
    }
    let quoted = utf8(" \"b/"@);
    assert forall|i: int| 0 <= i <= header.len() implies !(#[trigger] found_at(header, quoted, i)) by {
        if found_at(header, quoted, i) {
            assert(header.subrange(i, i + 4)[1] == 34);
            assert(header[i + 1] == 34);
        }
    }
    never_found(header, quoted, 0);
    assert(header.subrange(at, at + 3) =~= seq![32u8, 98u8, 47u8]);
    assert(header.subrange(2, at) =~= path);
    assert(header.skip(at + 3) =~= path);
    assert(splits_evenly(header, at));
    the_only_split(header, at, 0);
    assert(header.take(at) =~= seq![97u8, 47u8] + path);
    assert(header.skip(at + 1) =~= seq![98u8, 47u8] + path);
}

proof fn a_side_is_read(side: u8, path: Seq<u8>)
    requires
        side == 97 || side == 98,
        forall|k: int| 0 <= k < path.len() ==> #[trigger] path[k] != 34 && path[k] != 0,
    ensures
        decoded(seq![side, 47u8] + path) == Ok::<Seq<u8>, Seq<char>>(seq![side, 47u8] + path),
{
    let whole = seq![side, 47u8] + path;
    assert(whole[0] == side);
    assert(!whole.contains(0u8)) by {
        assert forall|k: int| 0 <= k < whole.len() implies whole[k] != 0 by {
            if k >= 2 {
                assert(whole[k] == path[k - 2]);
            }
        }
    }
}

/// A header with the same plain path below `a` and below `b` names that path on both sides, whatever spaces
/// or further occurrences of ` b/` the path holds.
pub proof fn a_plain_header_names_its_file(names: Seq<Seq<u8>>)
    requires
        names.len() > 0,
        forall|i: int| 0 <= i < names.len() ==> is_plain_name(#[trigger] names[i]),
    ensures
        header_names(plain_header(path_with(names))) == Ok::<(Seq<u8>, Seq<u8>), Seq<char>>(
            (path_with(names), path_with(names)),
        ),
{
    let path = path_with(names);
    slash_is_one_byte();
    plain_paths_hold_no_quote(names);
    a_plain_header_is_split(path);
    a_side_is_read(97, path);
    a_side_is_read(98, path);
    the_rest_below(97, names);
    the_rest_below(98, names);
}

/// A path that is not quoted is read as it stands, and a quoted one without a backslash is read as what
/// stands between the quotes.
pub proof fn plain_paths_are_read_as_they_stand(path: Seq<u8>)
    requires
        forall|k: int|
            0 <= k < path.len() ==> #[trigger] path[k] != 34 && path[k] != 92 && path[k] != 0,
    ensures
        decoded(path) == Ok::<Seq<u8>, Seq<char>>(path),
        decoded(seq![34u8] + path + seq![34u8]) == Ok::<Seq<u8>, Seq<char>>(path),
{
    assert(!path.contains(0u8));
    let quoted = seq![34u8] + path + seq![34u8];
    closes_at_the_end(path, 0);
    stands_between(path, 0);
    assert(path.skip(0) =~= path);
}

proof fn closes_at_the_end(path: Seq<u8>, k: int)
    requires
        0 <= k <= path.len(),
        forall|i: int|
            0 <= i < path.len() ==> #[trigger] path[i] != 34 && path[i] != 92 && path[i] != 0,
    ensures
        crate::reviewer::quote_close(seq![34u8] + path + seq![34u8], k + 1, false) == Ok::<
            int,
            Seq<char>,
        >(path.len() as int + 2),
    decreases path.len() - k,
{
    let quoted = seq![34u8] + path + seq![34u8];
    if k < path.len() {
        assert(quoted[k + 1] == path[k]);
        closes_at_the_end(path, k + 1);
    } else {
        assert(quoted[k + 1] == 34);
    }
}

proof fn stands_between(path: Seq<u8>, k: int)
    requires
        0 <= k <= path.len(),
        forall|i: int|
            0 <= i < path.len() ==> #[trigger] path[i] != 34 && path[i] != 92 && path[i] != 0,
    ensures
        crate::reviewer::unquoted(seq![34u8] + path + seq![34u8], k + 1) == Ok::<Seq<u8>, Seq<char>>(
            path.skip(k),
        ),
    decreases path.len() - k,
{
    let quoted = seq![34u8] + path + seq![34u8];
    if k < path.len() {
        assert(quoted[k + 1] == path[k]);
        stands_between(path, k + 1);
        assert(seq![path[k]] + path.skip(k + 1) =~= path.skip(k));
    } else {
        assert(path.skip(k) =~= Seq::empty());
    }
}

/// Whether a text is a full identifier of contents: forty or sixty-four hexadecimal digits.
pub open spec fn is_identifier(id: Seq<char>) -> bool {
    &&& id.len() == 40 || id.len() == 64
    &&& forall|i: int|
        0 <= i < id.len() ==> '0' <= #[trigger] id[i] <= '9' || 'a' <= id[i] <= 'f' || 'A' <= id[i] <= 'F'
}

/// Whether an identifier is not that of nothing.
pub open spec fn is_something(id: Seq<char>) -> bool {
    exists|i: int| 0 <= i < id.len() && #[trigger] id[i] != '0'
}

proof fn identifiers_are_blobs(id: Seq<char>)
    requires
        is_identifier(id),
    ensures
        is_full_blob(utf8(id)) == is_something(id),
{
    assert(is_ascii_chars(id));
    is_ascii_chars_encode_utf8(id);
    let bytes = utf8(id);
    assert forall|i: int| 0 <= i < bytes.len() implies is_hex_byte(#[trigger] bytes[i]) by {
        assert(bytes[i] == id[i] as u8);
    }
    if is_something(id) {
        let i = choose|i: int| 0 <= i < id.len() && #[trigger] id[i] != '0';
        assert(bytes[i] == id[i] as u8);
        assert(bytes[i] != 48);
    }
    if is_full_blob(bytes) {
        let i = choose|i: int| 0 <= i < bytes.len() && #[trigger] bytes[i] != 48;
        assert(id[i] != '0');
    }
}

proof fn found_first(b: Seq<u8>, needle: Seq<u8>, from: int, at: int)
    requires
        0 <= from <= at <= b.len(),
        found_at(b, needle, at),
        forall|i: int| from <= i < at ==> !(#[trigger] found_at(b, needle, i)),
    ensures
        first_from(b, needle, from) == Some(at),
    decreases at - from,
{
    if from < at {
        assert(!found_at(b, needle, from));
        found_first(b, needle, from + 1, at);
    }
}

/// The line of a patch that gives the contents before and after a change gives a deleted file the contents
/// before it, and every other one those after it, whatever file mode stands behind. The identifier of nothing
/// is no contents.
pub proof fn an_index_line_names_the_contents(old: Seq<char>, new: Seq<char>, mode: Seq<char>, kind: ChangeKind)
    requires
        is_identifier(old),
        is_identifier(new),
        mode.len() == 0 || mode[0] == ' ',
        is_ascii_chars(mode),
    ensures
        blob_in(utf8(old + ".."@ + new + mode), kind) == (if kind == ChangeKind::Deleted {
            if is_something(old) {
                Some(utf8(old))
            } else {
                None
            }
        } else {
            if is_something(new) {
                Some(utf8(new))
            } else {
                None
            }
        }),
{
    reveal_strlit("..");
    reveal_strlit(" ");
    let text = old + ".."@ + new + mode;
    assert(is_ascii_chars(old) && is_ascii_chars(new));
    assert(is_ascii_chars(text)) by {
        assert forall|i: int| 0 <= i < text.len() implies '\0' <= #[trigger] text[i] <= '\u{7f}' by {
            if i < old.len() {
                assert(text[i] == old[i]);
            } else if i < old.len() + 2 {
                assert(text[i] == '.');
            } else if i < old.len() + 2 + new.len() {
                assert(text[i] == new[i - old.len() - 2]);
            } else {
                assert(text[i] == mode[i - old.len() - 2 - new.len()]);
            }
        }
    }
    is_ascii_chars_encode_utf8(text);
    is_ascii_chars_encode_utf8(old);
    is_ascii_chars_encode_utf8(new);
    is_ascii_chars_encode_utf8(".."@);
    is_ascii_chars_encode_utf8(" "@);
    encode_utf8_valid_utf8(text);
    let b = utf8(text);
    let dots = old.len() as int;
    let two = utf8(".."@);
    assert(two =~= seq![46u8, 46u8]);
    assert(utf8(" "@) =~= seq![32u8]);
    assert forall|i: int| 0 <= i < dots implies !(#[trigger] found_at(b, two, i)) by {
        if found_at(b, two, i) {
            assert(b.subrange(i, i + 2)[0] == 46);
            assert(b[i] == text[i] as u8 && text[i] == old[i]);
        }
    }
    assert(b[dots] == text[dots] as u8 && b[dots + 1] == text[dots + 1] as u8);
    assert(text[dots] == '.' && text[dots + 1] == '.');
    assert(b.subrange(dots, dots + 2) =~= two);
    found_first(b, two, 0, dots);
    assert(b.take(dots) =~= utf8(old)) by {
        assert forall|i: int| 0 <= i < dots implies b.take(dots)[i] == utf8(old)[i] by {
            assert(b[i] == text[i] as u8 && text[i] == old[i] && utf8(old)[i] == old[i] as u8);
        }
    }
    let after = b.skip(dots + 2);
    let n = new.len() as int;
    assert forall|i: int| 0 <= i < n implies #[trigger] after[i] == new[i] as u8 && after[i] != 32 by {
        assert(after[i] == b[dots + 2 + i] && b[dots + 2 + i] == text[dots + 2 + i] as u8);
        assert(text[dots + 2 + i] == new[i]);
    }
    let space = utf8(" "@);
    assert forall|i: int| 0 <= i < n implies !(#[trigger] found_at(after, space, i)) by {
        if found_at(after, space, i) {
            assert(after.subrange(i, i + 1)[0] == 32);
            assert(after[i] == 32);
        }
    }
    assert(after.take(n) =~= utf8(new)) by {
        assert forall|i: int| 0 <= i < n implies after.take(n)[i] == utf8(new)[i] by {
            assert(after[i] == new[i] as u8 && utf8(new)[i] == new[i] as u8);
        }
    }
    if mode.len() > 0 {
        assert(text[dots + 2 + n] == mode[0]);
        assert(after[n] == b[dots + 2 + n] && b[dots + 2 + n] == text[dots + 2 + n] as u8);
        assert(after.subrange(n, n + 1) =~= space);
        found_first(after, space, 0, n);
    } else {
        assert(after.len() == n);
        assert forall|i: int| 0 <= i <= after.len() implies !(#[trigger] found_at(after, space, i)) by {}
        never_found(after, space, 0);
        assert(after =~= after.take(n));
    }
    identifiers_are_blobs(old);
    identifiers_are_blobs(new);
}

} // verus!
