//! Read-only review material and explicitly selected local viewers.
//!
//! Nothing here grants review or apply authority. A patch is a sequence of bytes; so are the paths
//! in it.

pub mod indexing;
pub mod moving;
pub mod naming;

use vstd::prelude::*;
use vstd::utf8::*;

use crate::planning::{components, components_of, file_name, file_name_of};

use crate::text::{
    chars_of, decimal, decimal_of, hex_char, hex_char_of, hexadecimal, hexadecimal_of, is_control,
    lower, lowered, optional_str, optional_view, put, same, same_optional, texts, turns_direction,
};
use crate::bytes::{
    begins, char_at, contents, copy_bytes, find_from, first_char, first_from, found_at, is_at,
    is_text, is_utf8, join_path, joined_path, path_components, path_parts, piece, push_all,
    same_bytes, starts, utf8, without,
};

verus! {

/// The longest header line that is read whole.
pub const MAX_HEADER: usize = 16384;

/// The most files that are indexed.
pub const MAX_FILES: usize = 200000;

/// The most hunks of one file that are indexed.
pub const MAX_HUNKS: usize = 100000;

/// The most bytes that one preview shows.
pub const MAX_PREVIEW: usize = 262144;

#[derive(Debug, Clone, Copy, PartialEq, Eq, Structural)]
pub enum ChangeKind {
    Modified,
    Added,
    Deleted,
    Renamed,
    Copied,
}

impl ChangeKind {
    /// The word for the kind.
    pub open spec fn word(self) -> Seq<char> {
        match self {
            ChangeKind::Modified => "modified"@,
            ChangeKind::Added => "added"@,
            ChangeKind::Deleted => "deleted"@,
            ChangeKind::Renamed => "renamed"@,
            ChangeKind::Copied => "copied"@,
        }
    }

    /// The word for the kind.
    pub fn label(self) -> (r: &'static str)
        ensures
            r@ == self.word(),
    {
        match self {
            ChangeKind::Modified => "modified",
            ChangeKind::Added => "added",
            ChangeKind::Deleted => "deleted",
            ChangeKind::Renamed => "renamed",
            ChangeKind::Copied => "copied",
        }
    }
}

/// One changed file of a patch.
#[derive(Debug, Clone, PartialEq, Eq)]
pub struct ChangeEntry {
    pub path: Vec<u8>,
    pub previous_path: Option<Vec<u8>>,
    pub kind: ChangeKind,
    pub additions: Option<u64>,
    pub deletions: Option<u64>,
    pub binary: bool,
    pub permission_change: bool,
    pub bytes: u64,
    /// Relative patch offsets; a bounded navigation index, never patch authority.
    pub hunks: Vec<u64>,
    pub start: u64,
    /// The parts of the patch that belong to the file: offset and length.
    pub ranges: Vec<(u64, u64)>,
    /// The full identifier of the file's contents, where the patch gives it.
    pub blob: Option<Vec<u8>>,
    pub regular: bool,
}

/// What a changed file of a patch is.
pub ghost struct Entry {
    pub path: Seq<u8>,
    pub previous: Option<Seq<u8>>,
    pub kind: ChangeKind,
    pub additions: Option<u64>,
    pub deletions: Option<u64>,
    pub binary: bool,
    pub permission_change: bool,
    pub bytes: u64,
    pub hunks: Seq<u64>,
    pub start: u64,
    pub ranges: Seq<(u64, u64)>,
    pub blob: Option<Seq<u8>>,
    pub regular: bool,
}

/// The contents of an optional byte string.
pub open spec fn optional_bytes(b: Option<Vec<u8>>) -> Option<Seq<u8>> {
    match b {
        Some(bytes) => Some(bytes@),
        None => None,
    }
}

impl View for ChangeEntry {
    type V = Entry;

    open spec fn view(&self) -> Entry {
        Entry {
            path: self.path@,
            previous: optional_bytes(self.previous_path),
            kind: self.kind,
            additions: self.additions,
            deletions: self.deletions,
            binary: self.binary,
            permission_change: self.permission_change,
            bytes: self.bytes,
            hunks: self.hunks@,
            start: self.start,
            ranges: self.ranges@,
            blob: optional_bytes(self.blob),
            regular: self.regular,
        }
    }
}

/// What the entries of a list are.
pub open spec fn entry_views(v: Seq<ChangeEntry>) -> Seq<Entry> {
    Seq::new(v.len(), |i: int| v[i]@)
}

/// Whether a name is that of a lock file that tools write.
pub open spec fn is_lock_file(name: Seq<u8>) -> bool {
    name == utf8("Cargo.lock"@) || name == utf8("package-lock.json"@) || name == utf8("yarn.lock"@)
        || name == utf8("pnpm-lock.yaml"@) || name == utf8("generated.lock"@)
}

/// Whether a name is that of a directory that tools fill.
pub open spec fn is_generated_directory(name: Seq<u8>) -> bool {
    name == utf8("generated"@) || name == utf8("dist"@) || name == utf8("build"@)
}

/// Whether a path looks generated.
pub open spec fn looks_generated(path: Seq<u8>) -> bool {
    let parts = path_components(path);
    ||| parts.len() > 0 && is_lock_file(parts.last())
    ||| exists|i: int| 0 <= i < parts.len() && is_generated_directory(#[trigger] parts[i])
}

impl ChangeEntry {
    /// What a reader should expect of the change.
    pub fn category(&self) -> (r: &'static str)
        ensures
            r@ == (if self.binary {
                "binary"@
            } else if self.permission_change {
                "permissions"@
            } else if looks_generated(self.path@) {
                "generated?"@
            } else {
                "text"@
            }),
    {
        if self.binary {
            return "binary";
        }
        if self.permission_change {
            return "permissions";
        }
        let parts = path_parts(&self.path);
        let ghost all = contents(parts@);
        if parts.len() > 0 {
            let name = &parts[parts.len() - 1];
            assert(all.last() == name@);
            if is_text(name, "Cargo.lock") || is_text(name, "package-lock.json") || is_text(
                name,
                "yarn.lock",
            ) || is_text(name, "pnpm-lock.yaml") || is_text(name, "generated.lock") {
                return "generated?";
            }
        }
        let mut i: usize = 0;
        while i < parts.len()
            invariant
                i <= parts.len(),
                all == contents(parts@),
                all == path_components(self.path@),
                !self.binary,
                !self.permission_change,
                all.len() > 0 ==> !is_lock_file(all.last()),
                forall|k: int| 0 <= k < i ==> !is_generated_directory(#[trigger] all[k]),
            decreases parts.len() - i,
        {
            assert(all[i as int] == parts@[i as int]@);
            if is_text(&parts[i], "generated") || is_text(&parts[i], "dist") || is_text(
                &parts[i],
                "build",
            ) {
                assert(is_generated_directory(all[i as int]));
                return "generated?";
            }
            i += 1;
        }
        "text"
    }
}

/// Whether every component is a plain name.
pub open spec fn only_names(parts: Seq<Seq<u8>>) -> bool {
    forall|i: int|
        0 <= i < parts.len() ==> (#[trigger] parts[i]) != utf8("/"@) && parts[i] != utf8("."@)
            && parts[i] != utf8(".."@)
}

/// Whether a name belongs to the repository's own machinery.
pub open spec fn is_internal(name: Seq<u8>) -> bool {
    name == utf8(".git"@) || name == utf8(".dispatch"@)
}

/// Why a path cannot be review material, if it cannot.
pub open spec fn path_problem(path: Seq<u8>) -> Option<Seq<char>> {
    let parts = path_components(path);
    if path.len() == 0 || !only_names(parts) {
        Some("unsafe path in candidate patch"@)
    } else if exists|i: int| 0 <= i < parts.len() && is_internal(#[trigger] parts[i]) {
        Some("repository internals are not review material"@)
    } else {
        None
    }
}

/// Whether a path can be review material: relative, without `.` and `..`, outside the repository's
/// own machinery.
pub fn safe_path(path: &Vec<u8>) -> (r: Result<(), String>)
    ensures
        match path_problem(path@) {
            Some(message) => r matches Err(e) && e@ == message,
            None => r is Ok,
        },
{
    if path.len() == 0 {
        return Err("unsafe path in candidate patch".to_owned());
    }
    let parts = path_parts(path);
    let ghost all = contents(parts@);
    let mut internal = false;
    let mut i: usize = 0;
    while i < parts.len()
        invariant
            i <= parts.len(),
            path@.len() > 0,
            all == contents(parts@),
            all == path_components(path@),
            forall|k: int|
                0 <= k < i ==> (#[trigger] all[k]) != utf8("/"@) && all[k] != utf8("."@) && all[k]
                    != utf8(".."@),
            internal == (exists|k: int| 0 <= k < i && is_internal(#[trigger] all[k])),
        decreases parts.len() - i,
    {
        assert(all[i as int] == parts@[i as int]@);
        if is_text(&parts[i], "/") || is_text(&parts[i], ".") || is_text(&parts[i], "..") {
            assert(!only_names(all));
            return Err("unsafe path in candidate patch".to_owned());
        }
        if is_text(&parts[i], ".git") || is_text(&parts[i], ".dispatch") {
            internal = true;
            assert(is_internal(all[i as int]));
        }
        i += 1;
    }
    if internal {
        return Err("repository internals are not review material".to_owned());
    }
    Ok(())
}

/// Where the quoted path that begins at the first byte ends, from the byte at `index` on.
pub open spec fn quote_close(bytes: Seq<u8>, index: int, escaped: bool) -> Result<int, Seq<char>>
    decreases bytes.len() - index,
{
    if index < 0 || index >= bytes.len() {
        Err("unterminated quoted diff path"@)
    } else if bytes[index] == 34 && !escaped {
        Ok(index + 1)
    } else {
        quote_close(bytes, index + 1, bytes[index] == 92 && !escaped)
    }
}

fn quoted_end(bytes: &Vec<u8>) -> (r: Result<usize, String>)
    ensures
        match quote_close(bytes@, 1, false) {
            Ok(end) => r matches Ok(n) && n == end && 2 <= n <= bytes.len(),
            Err(message) => r matches Err(e) && e@ == message,
        },
{
    let mut escaped = false;
    let mut index: usize = 1;
    while index < bytes.len()
        invariant
            1 <= index,
            quote_close(bytes@, 1, false) == quote_close(bytes@, index as int, escaped),
        decreases bytes.len() - index,
    {
        let byte = bytes[index];
        if byte == 34 && !escaped {
            return Ok(index + 1);
        }
        escaped = byte == 92 && !escaped;
        index += 1;
    }
    Err("unterminated quoted diff path".to_owned())
}

/// Whether a byte is an octal digit.
pub open spec fn is_octal(byte: u8) -> bool {
    48 <= byte <= 55
}

/// The byte that a letter stands for behind a backslash.
pub open spec fn escape_byte(letter: u8) -> Option<u8> {
    if letter == 97 {
        Some(7u8)
    } else if letter == 98 {
        Some(8u8)
    } else if letter == 116 {
        Some(9u8)
    } else if letter == 110 {
        Some(10u8)
    } else if letter == 118 {
        Some(11u8)
    } else if letter == 102 {
        Some(12u8)
    } else if letter == 114 {
        Some(13u8)
    } else if letter == 92 || letter == 34 {
        Some(letter)
    } else {
        None
    }
}

/// What the quoted path holds from the byte at `index` up to its closing quote.
pub open spec fn unquoted(bytes: Seq<u8>, index: int) -> Result<Seq<u8>, Seq<char>>
    decreases bytes.len() - index,
{
    if index < 0 || index + 1 >= bytes.len() {
        Ok(Seq::empty())
    } else if bytes[index] != 92 {
        match unquoted(bytes, index + 1) {
            Ok(rest) => Ok(seq![bytes[index]] + rest),
            Err(message) => Err(message),
        }
    } else {
        let escape = bytes[index + 1];
        if 48 <= escape <= 51 {
            if !(index + 3 < bytes.len() && is_octal(bytes[index + 2]) && is_octal(
                bytes[index + 3],
            )) {
                Err("invalid octal diff path"@)
            } else {
                match unquoted(bytes, index + 4) {
                    Ok(rest) => Ok(
                        seq![
                            ((escape - 48) * 64 + (bytes[index + 2] - 48) * 8 + (bytes[index + 3]
                                - 48)) as u8,
                        ] + rest,
                    ),
                    Err(message) => Err(message),
                }
            }
        } else {
            match escape_byte(escape) {
                Some(byte) => match unquoted(bytes, index + 2) {
                    Ok(rest) => Ok(seq![byte] + rest),
                    Err(message) => Err(message),
                },
                None => Err("invalid escaped diff path"@),
            }
        }
    }
}

/// A path that holds no NUL byte.
pub open spec fn without_nul(path: Seq<u8>) -> Result<Seq<u8>, Seq<char>> {
    if path.contains(0u8) {
        Err("NUL in diff path"@)
    } else {
        Ok(path)
    }
}

/// The path that a patch writes as `bytes`: as it stands, or in double quotes with escapes.
pub open spec fn decoded(bytes: Seq<u8>) -> Result<Seq<u8>, Seq<char>> {
    if bytes.len() > 0 && bytes[0] == 34 {
        match quote_close(bytes, 1, false) {
            Err(message) => Err(message),
            Ok(end) => if end != bytes.len() {
                Err("invalid quoted diff path"@)
            } else {
                match unquoted(bytes, 1) {
                    Err(message) => Err(message),
                    Ok(path) => without_nul(path),
                }
            },
        }
    } else {
        without_nul(bytes)
    }
}

fn has_nul(bytes: &Vec<u8>) -> (r: bool)
    ensures
        r == bytes@.contains(0u8),
{
    let mut i: usize = 0;
    while i < bytes.len()
        invariant
            i <= bytes.len(),
            forall|k: int| 0 <= k < i ==> bytes@[k] != 0,
        decreases bytes.len() - i,
    {
        if bytes[i] == 0 {
            assert(bytes@[i as int] == 0);
            return true;
        }
        i += 1;
    }
    false
}

/// What decoding gives when `done` is put before what is left.
spec fn continued(done: Seq<u8>, rest: Result<Seq<u8>, Seq<char>>) -> Result<Seq<u8>, Seq<char>> {
    match rest {
        Ok(bytes) => Ok(done + bytes),
        Err(message) => Err(message),
    }
}

fn unquote(bytes: &Vec<u8>) -> (r: Result<Vec<u8>, String>)
    ensures
        match unquoted(bytes@, 1) {
            Ok(path) => r matches Ok(v) && v@ == path,
            Err(message) => r matches Err(e) && e@ == message,
        },
{
    let mut decoded: Vec<u8> = Vec::new();
    let mut index: usize = 1;
    assert(unquoted(bytes@, 1) is Ok ==> Seq::<u8>::empty() + unquoted(bytes@, 1)->Ok_0
        =~= unquoted(bytes@, 1)->Ok_0);
    while index < bytes.len() && index + 1 < bytes.len()
        invariant
            1 <= index,
            unquoted(bytes@, 1) == continued(decoded@, unquoted(bytes@, index as int)),
        decreases bytes.len() - index,
    {
        let ghost done = decoded@;
        let ghost at = index as int;
        let byte = bytes[index];
        if byte != 92 {
            decoded.push(byte);
            index += 1;
            proof {
                let rest = unquoted(bytes@, at + 1);
                if rest is Ok {
                    assert(done + (seq![byte] + rest->Ok_0) =~= done.push(byte) + rest->Ok_0);
                }
            }
            continue ;
        }
        let escape = bytes[index + 1];
        if escape >= 48 && escape <= 51 {
            if !(index + 2 < bytes.len() && index + 3 < bytes.len()) {
                return Err("invalid octal diff path".to_owned());
            }
            let x = bytes[index + 2];
            let y = bytes[index + 3];
            if x < 48 || x > 55 || y < 48 || y > 55 {
                return Err("invalid octal diff path".to_owned());
            }
            let value: u8 = (escape - 48) * 64 + (x - 48) * 8 + (y - 48);
            decoded.push(value);
            index += 4;
            proof {
                let rest = unquoted(bytes@, at + 4);
                if rest is Ok {
                    assert(done + (seq![value] + rest->Ok_0) =~= done.push(value) + rest->Ok_0);
                }
            }
        } else {
            let value: u8 = if escape == 97 {
                7
            } else if escape == 98 {
                8
            } else if escape == 116 {
                9
            } else if escape == 110 {
                10
            } else if escape == 118 {
                11
            } else if escape == 102 {
                12
            } else if escape == 114 {
                13
            } else if escape == 92 || escape == 34 {
                escape
            } else {
                return Err("invalid escaped diff path".to_owned());
            };
            decoded.push(value);
            index += 2;
            proof {
                let rest = unquoted(bytes@, at + 2);
                if rest is Ok {
                    assert(done + (seq![value] + rest->Ok_0) =~= done.push(value) + rest->Ok_0);
                }
            }
        }
    }
    assert(unquoted(bytes@, index as int) == Ok::<Seq<u8>, Seq<char>>(Seq::empty()));
    assert(decoded@ + Seq::<u8>::empty() =~= decoded@);
    Ok(decoded)
}

/// Reads a path as a patch writes it.
pub fn decode_path(bytes: &Vec<u8>) -> (r: Result<Vec<u8>, String>)
    ensures
        match decoded(bytes@) {
            Ok(path) => r matches Ok(v) && v@ == path,
            Err(message) => r matches Err(e) && e@ == message,
        },
{
    let path = if bytes.len() > 0 && bytes[0] == 34 {
        match quoted_end(bytes) {
            Err(message) => {
                return Err(message);
            },
            Ok(end) => {
                if end != bytes.len() {
                    return Err("invalid quoted diff path".to_owned());
                }
            },
        }
        match unquote(bytes) {
            Err(message) => {
                return Err(message);
            },
            Ok(path) => path,
        }
    } else {
        copy_bytes(bytes)
    };
    if has_nul(&path) {
        return Err("NUL in diff path".to_owned());
    }
    Ok(path)
}

/// The path below the directory `side` that a patch puts before every path.
pub open spec fn below_side(path: Seq<u8>, side: Seq<u8>) -> Result<Seq<u8>, Seq<char>> {
    let parts = path_components(path);
    if parts.len() > 0 && parts[0] == side {
        Ok(join_path(parts.skip(1)))
    } else {
        Err("invalid diff path prefix"@)
    }
}

/// Takes the directory `side` away from a path and puts the rest in normal form.
fn strip_side(path: &Vec<u8>, side: &str) -> (r: Result<Vec<u8>, String>)
    ensures
        match below_side(path@, utf8(side@)) {
            Ok(rest) => r matches Ok(v) && v@ == rest,
            Err(message) => r matches Err(e) && e@ == message,
        },
{
    let parts = path_parts(path);
    if parts.len() > 0 && is_text(&parts[0], side) {
        Ok(joined_path(&parts, 1))
    } else {
        Err("invalid diff path prefix".to_owned())
    }
}

/// The two paths of a header that is split at the space at `split`.
pub open spec fn paths_split_at(header: Seq<u8>, split: int) -> Result<(Seq<u8>, Seq<u8>), Seq<char>> {
    match decoded(header.take(split)) {
        Err(message) => Err(message),
        Ok(before) => match below_side(before, utf8("a"@)) {
            Err(message) => Err(message),
            Ok(old_path) => match decoded(header.skip(split + 1)) {
                Err(message) => Err(message),
                Ok(after) => match below_side(after, utf8("b"@)) {
                    Err(message) => Err(message),
                    Ok(new_path) => Ok((old_path, new_path)),
                },
            },
        },
    }
}

/// Whether splitting at `i` gives the same path on both sides.
pub open spec fn splits_evenly(header: Seq<u8>, i: int) -> bool {
    found_at(header, utf8(" b/"@), i) && 2 <= i && header.subrange(2, i) == header.skip(i + 3)
}

/// The first place at or after `from` where splitting gives the same path on both sides.
pub open spec fn even_split(header: Seq<u8>, from: int) -> Option<int>
    decreases header.len() - from,
{
    if from < 0 || from >= header.len() {
        None
    } else if splits_evenly(header, from) {
        Some(from)
    } else {
        even_split(header, from + 1)
    }
}

/// The two paths that a `diff --git` header names. Git leaves spaces unquoted: the split that gives
/// the same path on both sides is preferred, then the first.
pub open spec fn header_names(header: Seq<u8>) -> Result<(Seq<u8>, Seq<u8>), Seq<char>> {
    if header.len() > 0 && header[0] == 34 {
        match quote_close(header, 1, false) {
            Err(message) => Err(message),
            Ok(end) => match decoded(header.take(end)) {
                Err(message) => Err(message),
                Ok(before) => if !starts(header.skip(end), utf8(" "@)) {
                    Err("invalid diff header"@)
                } else {
                    match decoded(header.skip(end + 1)) {
                        Err(message) => Err(message),
                        Ok(after) => match below_side(before, utf8("a"@)) {
                            Err(message) => Err(message),
                            Ok(old_path) => match below_side(after, utf8("b"@)) {
                                Err(message) => Err(message),
                                Ok(new_path) => Ok((old_path, new_path)),
                            },
                        },
                    }
                },
            },
        }
    } else {
        match first_from(header, utf8(" \"b/"@), 0) {
            Some(split) => paths_split_at(header, split),
            None => match even_split(header, 0) {
                Some(split) => paths_split_at(header, split),
                None => match first_from(header, utf8(" b/"@), 0) {
                    Some(split) => paths_split_at(header, split),
                    None => Err("invalid diff paths"@),
                },
            },
        }
    }
}

fn split_paths(header: &Vec<u8>, split: usize) -> (r: Result<(Vec<u8>, Vec<u8>), String>)
    requires
        split < header.len(),
    ensures
        match paths_split_at(header@, split as int) {
            Ok(names) => r matches Ok(v) && (v.0@, v.1@) == names,
            Err(message) => r matches Err(e) && e@ == message,
        },
{
    let first = piece(header, 0, split);
    assert(header@.subrange(0, split as int) =~= header@.take(split as int));
    let before = match decode_path(&first) {
        Err(message) => {
            return Err(message);
        },
        Ok(path) => path,
    };
    let old_path = match strip_side(&before, "a") {
        Err(message) => {
            return Err(message);
        },
        Ok(path) => path,
    };
    let second = without(header, split + 1);
    let after = match decode_path(&second) {
        Err(message) => {
            return Err(message);
        },
        Ok(path) => path,
    };
    match strip_side(&after, "b") {
        Err(message) => Err(message),
        Ok(new_path) => Ok((old_path, new_path)),
    }
}

fn find_even_split(header: &Vec<u8>) -> (r: Option<usize>)
    ensures
        match r {
            Some(i) => even_split(header@, 0) == Some(i as int) && i < header.len(),
            None => even_split(header@, 0) is None,
        },
{
    let mut i: usize = 0;
    while i < header.len()
        invariant
            i <= header.len(),
            even_split(header@, 0) == even_split(header@, i as int),
        decreases header.len() - i,
    {
        if i >= 2 && is_at(header, " b/", i) {
            proof {
                reveal_strlit(" b/");
                assert(utf8(" b/"@).len() == 3) by {
                    assert(vstd::utf8::is_ascii_chars(" b/"@));
                    is_ascii_chars_encode_utf8(" b/"@);
                }
            }
            let left = piece(header, 2, i);
            let right = without(header, i + 3);
            if same_bytes(&left, &right) {
                return Some(i);
            }
        }
        i += 1;
    }
    None
}

/// Reads the two paths of a `diff --git` header.
pub fn header_paths(header: &Vec<u8>) -> (r: Result<(Vec<u8>, Vec<u8>), String>)
    ensures
        match header_names(header@) {
            Ok(names) => r matches Ok(v) && (v.0@, v.1@) == names,
            Err(message) => r matches Err(e) && e@ == message,
        },
{
    if header.len() > 0 && header[0] == 34 {
        let end = match quoted_end(header) {
            Err(message) => {
                return Err(message);
            },
            Ok(end) => end,
        };
        let first = piece(header, 0, end);
        assert(header@.subrange(0, end as int) =~= header@.take(end as int));
        let before = match decode_path(&first) {
            Err(message) => {
                return Err(message);
            },
            Ok(path) => path,
        };
        let tail = without(header, end);
        if !begins(&tail, " ") {
            return Err("invalid diff header".to_owned());
        }
        proof {
            reveal_strlit(" ");
            assert(utf8(" "@).len() == 1) by {
                assert(vstd::utf8::is_ascii_chars(" "@));
                is_ascii_chars_encode_utf8(" "@);
            }
        }
        let second = without(&tail, 1);
        assert(second@ =~= header@.skip(end + 1));
        let after = match decode_path(&second) {
            Err(message) => {
                return Err(message);
            },
            Ok(path) => path,
        };
        let old_path = match strip_side(&before, "a") {
            Err(message) => {
                return Err(message);
            },
            Ok(path) => path,
        };
        return match strip_side(&after, "b") {
            Err(message) => Err(message),
            Ok(new_path) => Ok((old_path, new_path)),
        };
    }
    proof {
        reveal_strlit(" b/");
        assert(utf8(" b/"@).len() == 3) by {
            assert(vstd::utf8::is_ascii_chars(" b/"@));
            is_ascii_chars_encode_utf8(" b/"@);
        }
        reveal_strlit(" \"b/");
        assert(utf8(" \"b/"@).len() == 4) by {
            assert(vstd::utf8::is_ascii_chars(" \"b/"@));
            is_ascii_chars_encode_utf8(" \"b/"@);
        }
    }
    match find_from(header, " \"b/", 0) {
        Some(split) => split_paths(header, split),
        None => match find_even_split(header) {
            Some(split) => split_paths(header, split),
            None => match find_from(header, " b/", 0) {
                Some(split) => split_paths(header, split),
                None => Err("invalid diff paths".to_owned()),
            },
        },
    }
}

/// Where the line that begins at `from` ends, its newline included.
pub open spec fn line_end(patch: Seq<u8>, from: int) -> int
    decreases patch.len() - from,
{
    if from < 0 || from >= patch.len() {
        patch.len() as int
    } else if patch[from] == 10 {
        from + 1
    } else {
        line_end(patch, from + 1)
    }
}

/// What is read of the line from `from` to `end`: a bounded beginning of it, without its newline.
pub open spec fn line_text(patch: Seq<u8>, from: int, end: int) -> Seq<u8> {
    let head = if end - from <= MAX_HEADER {
        patch.subrange(from, end)
    } else {
        patch.subrange(from, from + MAX_HEADER)
    };
    if head.len() > 0 && head.last() == 10 {
        head.drop_last()
    } else {
        head
    }
}

/// A full blob identifier: forty or sixty-four hexadecimal digits, not all zero.
pub open spec fn is_full_blob(b: Seq<u8>) -> bool {
    &&& b.len() == 40 || b.len() == 64
    &&& forall|i: int| 0 <= i < b.len() ==> is_hex_byte(#[trigger] b[i])
    &&& exists|i: int| 0 <= i < b.len() && #[trigger] b[i] != 48
}

/// Whether a byte is a hexadecimal digit.
pub open spec fn is_hex_byte(b: u8) -> bool {
    48 <= b <= 57 || 97 <= b <= 102 || 65 <= b <= 70
}

/// The identifier that an `index` line gives for the contents of the file: of a deleted file the
/// old ones, else the new ones.
pub open spec fn blob_in(index: Seq<u8>, kind: ChangeKind) -> Option<Seq<u8>> {
    if !valid_utf8(index) {
        None
    } else {
        match first_from(index, utf8(".."@), 0) {
            None => None,
            Some(dots) => {
                let blob = if kind == ChangeKind::Deleted {
                    index.take(dots)
                } else {
                    let after = index.skip(dots + 2);
                    match first_from(after, utf8(" "@), 0) {
                        Some(space) => after.take(space),
                        None => after,
                    }
                };
                if is_full_blob(blob) {
                    Some(blob)
                } else {
                    None
                }
            },
        }
    }
}

/// One more, where there is a count.
pub open spec fn one_more(count: Option<u64>) -> Option<u64> {
    match count {
        Some(n) => Some((n + 1) as u64),
        None => None,
    }
}

/// What a line within the record of a file makes of the entry for it.
pub open spec fn entry_after_line(e: Entry, text: Seq<u8>, offset: u64) -> Result<Entry, Seq<char>> {
    if starts(text, utf8("old mode "@)) || starts(text, utf8("new mode "@)) {
        Ok(Entry { permission_change: true, ..e })
    } else if starts(text, utf8("new file mode "@)) {
        Ok(
            Entry {
                kind: ChangeKind::Added,
                regular: starts(text, utf8("new file mode 100"@)),
                ..e
            },
        )
    } else if starts(text, utf8("deleted file mode "@)) {
        Ok(
            Entry {
                kind: ChangeKind::Deleted,
                regular: starts(text, utf8("deleted file mode 100"@)),
                ..e
            },
        )
    } else if starts(text, utf8("index "@)) {
        match blob_in(text.skip(6), e.kind) {
            Some(blob) => Ok(Entry { blob: Some(blob), ..e }),
            None => Ok(e),
        }
    } else if starts(text, utf8("rename from "@)) {
        match decoded(text.skip(12)) {
            Ok(path) => Ok(Entry { previous: Some(path), kind: ChangeKind::Renamed, ..e }),
            Err(message) => Err(message),
        }
    } else if starts(text, utf8("rename to "@)) {
        match decoded(text.skip(10)) {
            Ok(path) => Ok(Entry { path, ..e }),
            Err(message) => Err(message),
        }
    } else if starts(text, utf8("copy from "@)) {
        match decoded(text.skip(10)) {
            Ok(path) => Ok(Entry { previous: Some(path), kind: ChangeKind::Copied, ..e }),
            Err(message) => Err(message),
        }
    } else if starts(text, utf8("copy to "@)) {
        match decoded(text.skip(8)) {
            Ok(path) => Ok(Entry { path, ..e }),
            Err(message) => Err(message),
        }
    } else if text == utf8("GIT binary patch"@) || starts(text, utf8("Binary files "@)) {
        Ok(Entry { binary: true, additions: None, deletions: None, ..e })
    } else if starts(text, utf8("@@ "@)) {
        if e.hunks.len() < MAX_HUNKS {
            Ok(Entry { hunks: e.hunks.push((offset - e.start) as u64), ..e })
        } else {
            Ok(e)
        }
    } else if e.hunks.len() > 0 && starts(text, utf8("+"@)) {
        Ok(Entry { additions: one_more(e.additions), ..e })
    } else if e.hunks.len() > 0 && starts(text, utf8("-"@)) {
        Ok(Entry { deletions: one_more(e.deletions), ..e })
    } else {
        Ok(e)
    }
}

/// The entry that a `diff --git` header begins.
pub open spec fn fresh_entry(before: Seq<u8>, after: Seq<u8>, offset: u64) -> Entry {
    Entry {
        path: after,
        previous: if before != after {
            Some(before)
        } else {
            None
        },
        kind: ChangeKind::Modified,
        additions: Some(0u64),
        deletions: Some(0u64),
        binary: false,
        permission_change: false,
        bytes: 0,
        hunks: Seq::empty(),
        start: offset,
        ranges: Seq::empty(),
        blob: None,
        regular: false,
    }
}

/// The entries once the record of the last one is known to end at `offset`.
pub open spec fn closed_at(entries: Seq<Entry>, offset: u64) -> Seq<Entry> {
    if entries.len() == 0 {
        entries
    } else {
        let last = entries.last();
        let bytes = (offset - last.start) as u64;
        entries.drop_last().push(
            Entry { bytes, ranges: last.ranges.push((last.start, bytes)), ..last },
        )
    }
}

/// The entries after one more line.
#[verifier::opaque]
pub open spec fn entries_after_line(
    entries: Seq<Entry>,
    text: Seq<u8>,
    offset: u64,
    length: int,
) -> Result<Seq<Entry>, Seq<char>> {
    if starts(text, utf8("diff --git "@)) {
        if entries.len() >= MAX_FILES || length > MAX_HEADER {
            Err("patch index exceeds supported metadata bounds; complete patch remains available"@)
        } else {
            match header_names(text.skip(11)) {
                Err(message) => Err(message),
                Ok((before, after)) => match path_problem(before) {
                    Some(message) => Err(message),
                    None => match path_problem(after) {
                        Some(message) => Err(message),
                        None => Ok(closed_at(entries, offset).push(fresh_entry(before, after, offset))),
                    },
                },
            }
        }
    } else if entries.len() == 0 {
        Ok(entries)
    } else {
        match entry_after_line(entries.last(), text, offset) {
            Err(message) => Err(message),
            Ok(e) => Ok(entries.drop_last().push(e)),
        }
    }
}

/// The entries once the lines from `offset` on are read, the last one still open.
pub open spec fn entries_from(
    patch: Seq<u8>,
    offset: int,
    entries: Seq<Entry>,
) -> Result<Seq<Entry>, Seq<char>>
    decreases patch.len() - offset,
{
    if offset < 0 || offset >= patch.len() {
        Ok(entries)
    } else {
        let end = line_end(patch, offset);
        proof {
            line_end_is_ahead(patch, offset);
        }
        match entries_after_line(
            entries,
            line_text(patch, offset, end),
            offset as u64,
            end - offset,
        ) {
            Err(message) => Err(message),
            Ok(next) => entries_from(patch, end, next),
        }
    }
}

/// Why the path of an entry cannot be review material, if it cannot.
pub open spec fn entry_problem(e: Entry) -> Option<Seq<char>> {
    match path_problem(e.path) {
        Some(message) => Some(message),
        None => match e.previous {
            Some(previous) => path_problem(previous),
            None => None,
        },
    }
}

/// Why the entry at `from` or a later one cannot be review material.
pub open spec fn entries_problem(entries: Seq<Entry>, from: int) -> Option<Seq<char>>
    decreases entries.len() - from,
{
    if from < 0 || from >= entries.len() {
        None
    } else if entry_problem(entries[from]) is Some {
        entry_problem(entries[from])
    } else {
        entries_problem(entries, from + 1)
    }
}

/// The index of a patch: one entry per changed file, in the order of the patch.
pub open spec fn index_of(patch: Seq<u8>) -> Result<Seq<Entry>, Seq<char>> {
    match entries_from(patch, 0, Seq::empty()) {
        Err(message) => Err(message),
        Ok(open) => {
            let entries = closed_at(open, patch.len() as u64);
            match entries_problem(entries, 0) {
                Some(message) => Err(message),
                None => Ok(entries),
            }
        },
    }
}

/// A line ends behind its beginning and within the patch.
pub proof fn line_end_is_ahead(patch: Seq<u8>, from: int)
    requires
        0 <= from < patch.len(),
    ensures
        from < line_end(patch, from) <= patch.len(),
    decreases patch.len() - from,
{
    if patch[from] != 10 && from + 1 < patch.len() {
        line_end_is_ahead(patch, from + 1);
    } else if patch[from] != 10 {
        assert(line_end(patch, from + 1) == patch.len());
    }
}

fn find_line_end(patch: &Vec<u8>, from: usize) -> (r: usize)
    requires
        from < patch.len(),
    ensures
        r == line_end(patch@, from as int),
        from < r <= patch.len(),
{
    let mut i: usize = from;
    while i < patch.len()
        invariant
            from <= i <= patch.len(),
            line_end(patch@, from as int) == line_end(patch@, i as int),
            from < patch.len(),
        decreases patch.len() - i,
    {
        if patch[i] == 10 {
            return i + 1;
        }
        i += 1;
    }
    patch.len()
}

fn read_line(patch: &Vec<u8>, from: usize, end: usize) -> (r: Vec<u8>)
    requires
        from < end <= patch.len(),
    ensures
        r@ == line_text(patch@, from as int, end as int),
{
    let stop = if end - from <= MAX_HEADER {
        end
    } else {
        from + MAX_HEADER
    };
    if patch[stop - 1] == 10 {
        let r = piece(patch, from, stop - 1);
        assert(patch@.subrange(from as int, stop as int).drop_last() =~= r@);
        r
    } else {
        piece(patch, from, stop)
    }
}

/// How many bytes an ASCII literal has.
proof fn prefix_lengths()
    ensures
        utf8("diff --git "@).len() == 11,
        utf8("index "@).len() == 6,
        utf8("rename from "@).len() == 12,
        utf8("rename to "@).len() == 10,
        utf8("copy from "@).len() == 10,
        utf8("copy to "@).len() == 8,
        utf8(".."@).len() == 2,
        utf8(" "@).len() == 1,
{
    reveal_strlit("diff --git ");
    reveal_strlit("index ");
    reveal_strlit("rename from ");
    reveal_strlit("rename to ");
    reveal_strlit("copy from ");
    reveal_strlit("copy to ");
    reveal_strlit("..");
    reveal_strlit(" ");
    is_ascii_chars_encode_utf8("diff --git "@);
    is_ascii_chars_encode_utf8("index "@);
    is_ascii_chars_encode_utf8("rename from "@);
    is_ascii_chars_encode_utf8("rename to "@);
    is_ascii_chars_encode_utf8("copy from "@);
    is_ascii_chars_encode_utf8("copy to "@);
    is_ascii_chars_encode_utf8(".."@);
    is_ascii_chars_encode_utf8(" "@);
}

fn full_blob(b: &Vec<u8>) -> (r: bool)
    ensures
        r == is_full_blob(b@),
{
    if b.len() != 40 && b.len() != 64 {
        return false;
    }
    let mut nonzero = false;
    let mut i: usize = 0;
    while i < b.len()
        invariant
            i <= b.len(),
            b@.len() == 40 || b@.len() == 64,
            forall|k: int| 0 <= k < i ==> is_hex_byte(#[trigger] b@[k]),
            nonzero == (exists|k: int| 0 <= k < i && #[trigger] b@[k] != 48),
        decreases b.len() - i,
    {
        let x = b[i];
        if !((x >= 48 && x <= 57) || (x >= 97 && x <= 102) || (x >= 65 && x <= 70)) {
            assert(!is_hex_byte(b@[i as int]));
            return false;
        }
        if x != 48 {
            nonzero = true;
            assert(b@[i as int] != 48);
        }
        i += 1;
    }
    nonzero
}

fn find_blob(index: &Vec<u8>, kind: ChangeKind) -> (r: Option<Vec<u8>>)
    ensures
        optional_bytes(r) == blob_in(index@, kind),
{
    proof {
        prefix_lengths();
    }
    if !is_utf8(index) {
        return None;
    }
    match find_from(index, "..", 0) {
        None => None,
        Some(dots) => {
            let blob = if kind == ChangeKind::Deleted {
                let before = piece(index, 0, dots);
                assert(index@.subrange(0, dots as int) =~= index@.take(dots as int));
                before
            } else {
                let after = without(index, dots + 2);
                match find_from(&after, " ", 0) {
                    Some(space) => {
                        let word = piece(&after, 0, space);
                        assert(after@.subrange(0, space as int) =~= after@.take(space as int));
                        word
                    },
                    None => after,
                }
            };
            if full_blob(&blob) {
                Some(blob)
            } else {
                None
            }
        },
    }
}

/// Whether the counts of an entry can still grow at `offset`.
spec fn counts_fit(e: Entry, offset: int) -> bool {
    &&& e.start <= offset
    &&& e.additions matches Some(n) ==> n <= offset
    &&& e.deletions matches Some(n) ==> n <= offset
}

fn read_entry_line(e: &mut ChangeEntry, text: &Vec<u8>, offset: u64) -> (r: Result<(), String>)
    requires
        counts_fit(old(e)@, offset as int),
        offset < u64::MAX,
    ensures
        match entry_after_line(old(e)@, text@, offset) {
            Ok(after) => r is Ok && final(e)@ == after && counts_fit(after, offset as int + 1),
            Err(message) => r matches Err(m) && m@ == message,
        },
{
    proof {
        prefix_lengths();
    }
    if begins(text, "old mode ") || begins(text, "new mode ") {
        e.permission_change = true;
    } else if begins(text, "new file mode ") {
        e.kind = ChangeKind::Added;
        e.regular = begins(text, "new file mode 100");
    } else if begins(text, "deleted file mode ") {
        e.kind = ChangeKind::Deleted;
        e.regular = begins(text, "deleted file mode 100");
    } else if begins(text, "index ") {
        let index = without(text, 6);
        if let Some(blob) = find_blob(&index, e.kind) {
            e.blob = Some(blob);
        }
    } else if begins(text, "rename from ") {
        match decode_path(&without(text, 12)) {
            Err(message) => {
                return Err(message);
            },
            Ok(path) => {
                e.previous_path = Some(path);
            },
        }
        e.kind = ChangeKind::Renamed;
    } else if begins(text, "rename to ") {
        match decode_path(&without(text, 10)) {
            Err(message) => {
                return Err(message);
            },
            Ok(path) => {
                e.path = path;
            },
        }
    } else if begins(text, "copy from ") {
        match decode_path(&without(text, 10)) {
            Err(message) => {
                return Err(message);
            },
            Ok(path) => {
                e.previous_path = Some(path);
            },
        }
        e.kind = ChangeKind::Copied;
    } else if begins(text, "copy to ") {
        match decode_path(&without(text, 8)) {
            Err(message) => {
                return Err(message);
            },
            Ok(path) => {
                e.path = path;
            },
        }
    } else if is_text(text, "GIT binary patch") || begins(text, "Binary files ") {
        e.binary = true;
        e.additions = None;
        e.deletions = None;
    } else if begins(text, "@@ ") {
        if e.hunks.len() < MAX_HUNKS {
            let at = offset - e.start;
            e.hunks.push(at);
        }
    } else if e.hunks.len() > 0 && begins(text, "+") {
        if let Some(count) = e.additions {
            e.additions = Some(count + 1);
        }
    } else if e.hunks.len() > 0 && begins(text, "-") {
        if let Some(count) = e.deletions {
            e.deletions = Some(count + 1);
        }
    }
    Ok(())
}

fn close_last(entries: &mut Vec<ChangeEntry>, offset: u64)
    requires
        old(entries)@.len() > 0 ==> old(entries)@.last().start <= offset,
    ensures
        entry_views(final(entries)@) == closed_at(entry_views(old(entries)@), offset),
{
    let ghost before = entry_views(entries@);
    if entries.len() > 0 {
        let i = entries.len() - 1;
        let mut last = entries.pop().unwrap();
        let ghost rest = entries@;
        last.bytes = offset - last.start;
        last.ranges.push((last.start, last.bytes));
        let ghost closed = last@;
        entries.push(last);
        assert(entry_views(rest) =~= before.drop_last());
        assert(entry_views(entries@) =~= entry_views(rest).push(closed));
    } else {
        assert(entry_views(entries@) =~= before);
    }
}

/// Indexes a patch: one entry per changed file, with what the patch says of it and where its record
/// stands. Fails on a path that cannot be review material.
pub fn index_patch(patch: &Vec<u8>) -> (r: Result<Vec<ChangeEntry>, String>)
    ensures
        match index_of(patch@) {
            Ok(entries) => r matches Ok(v) && entry_views(v@) == entries,
            Err(message) => r matches Err(e) && e@ == message,
        },
{
    let mut entries: Vec<ChangeEntry> = Vec::new();
    let mut offset: usize = 0;
    assert(entry_views(entries@) =~= Seq::empty());
    proof {
        prefix_lengths();
    }
    while offset < patch.len()
        invariant
            offset <= patch.len(),
            utf8("diff --git "@).len() == 11,
            entries_from(patch@, 0, Seq::empty()) == entries_from(
                patch@,
                offset as int,
                entry_views(entries@),
            ),
            entries@.len() > 0 ==> counts_fit(entries@.last()@, offset as int),
        decreases patch.len() - offset,
    {
        let ghost known = entry_views(entries@);
        proof {
            reveal(entries_after_line);
        }
        let end = find_line_end(patch, offset);
        let text = read_line(patch, offset, end);
        if begins(&text, "diff --git ") {
            if entries.len() >= MAX_FILES || end - offset > MAX_HEADER {
                return Err(
                    "patch index exceeds supported metadata bounds; complete patch remains available".to_owned(),
                );
            }
            let (before, after) = match header_paths(&without(&text, 11)) {
                Err(message) => {
                    return Err(message);
                },
                Ok(names) => names,
            };
            if let Err(message) = safe_path(&before) {
                return Err(message);
            }
            if let Err(message) = safe_path(&after) {
                return Err(message);
            }
            close_last(&mut entries, offset as u64);
            let ghost closed = entry_views(entries@);
            let ghost (b, a) = (before@, after@);
            let previous_path = if same_bytes(&before, &after) {
                None
            } else {
                Some(before)
            };
            let ghost earlier = entries@;
            let entry = ChangeEntry {
                path: after,
                previous_path,
                kind: ChangeKind::Modified,
                additions: Some(0),
                deletions: Some(0),
                binary: false,
                permission_change: false,
                bytes: 0,
                hunks: Vec::new(),
                start: offset as u64,
                ranges: Vec::new(),
                blob: None,
                regular: false,
            };
            assert(entry@.hunks =~= Seq::<u64>::empty());
            assert(entry@.ranges =~= Seq::<(u64, u64)>::empty());
            assert(entry@ == fresh_entry(b, a, offset as u64));
            let ghost fresh = entry@;
            entries.push(entry);
            assert(entry_views(entries@) =~= closed.push(fresh));
        } else if entries.len() > 0 {
            let mut last = entries.pop().unwrap();
            let ghost rest = entries@;
            assert(known.drop_last() =~= entry_views(rest));
            if let Err(message) = read_entry_line(&mut last, &text, offset as u64) {
                return Err(message);
            }
            let ghost after = last@;
            entries.push(last);
            assert(entry_views(entries@) =~= entry_views(rest).push(after));
        }
        offset = end;
    }
    close_last(&mut entries, offset as u64);
    let ghost known = entry_views(entries@);
    let mut i: usize = 0;
    while i < entries.len()
        invariant
            i <= entries.len(),
            known == entry_views(entries@),
            entries_problem(known, 0) == entries_problem(known, i as int),
            entries_from(patch@, 0, Seq::empty()) is Ok,
            known == closed_at(entries_from(patch@, 0, Seq::empty())->Ok_0, patch@.len() as u64),
        decreases entries.len() - i,
    {
        assert(known[i as int] == entries@[i as int]@);
        if let Err(message) = safe_path(&entries[i].path) {
            return Err(message);
        }
        if let Some(previous) = &entries[i].previous_path {
            if let Err(message) = safe_path(previous) {
                return Err(message);
            }
        }
        i += 1;
    }
    Ok(entries)
}

proof fn no_problem_at(entries: Seq<Entry>, from: int, i: int)
    requires
        entries_problem(entries, from) is None,
        0 <= from <= i < entries.len(),
    ensures
        entry_problem(entries[i]) is None,
    decreases entries.len() - from,
{
    if from < i {
        no_problem_at(entries, from + 1, i);
    }
}

/// Every path in an index is relative, holds neither `.` nor `..` and stays outside the
/// repository's own machinery.
pub proof fn indexed_paths_are_safe(patch: Seq<u8>, i: int)
    requires
        index_of(patch) is Ok,
        0 <= i < index_of(patch)->Ok_0.len(),
    ensures
        path_problem(index_of(patch)->Ok_0[i].path) is None,
        index_of(patch)->Ok_0[i].previous matches Some(previous) ==> path_problem(previous) is None,
{
    no_problem_at(index_of(patch)->Ok_0, 0, i);
}

/// Whether the record of the entry at `i` is its one range, and ends where the next one begins or,
/// for the last one, at `end`.
pub open spec fn is_tile(entries: Seq<Entry>, i: int, end: int) -> bool {
    let e = entries[i];
    &&& e.ranges == seq![(e.start, e.bytes)]
    &&& e.start + e.bytes == (if i + 1 < entries.len() {
        entries[i + 1].start as int
    } else {
        end
    })
}

/// Whether the records of the entries follow one another without a gap, the last one still open at
/// `offset`.
spec fn tiled(entries: Seq<Entry>, offset: int) -> bool {
    &&& forall|i: int| 0 <= i < entries.len() - 1 ==> #[trigger] is_tile(entries, i, offset)
    &&& entries.len() > 0 ==> entries.last().start <= offset && entries.last().ranges.len() == 0
}

proof fn closing_tiles(entries: Seq<Entry>, offset: u64)
    requires
        tiled(entries, offset as int),
    ensures
        closed_at(entries, offset).len() == entries.len(),
        entries.len() > 0 ==> closed_at(entries, offset)[0].start == entries[0].start,
        forall|i: int|
            0 <= i < entries.len() ==> #[trigger] is_tile(closed_at(entries, offset), i, offset as int),
{
    let closed = closed_at(entries, offset);
    if entries.len() > 0 {
        let last = entries.last();
        assert(last.ranges.push((last.start, (offset - last.start) as u64)) =~= seq![
            (last.start, (offset - last.start) as u64),
        ]);
        assert forall|i: int| 0 <= i < entries.len() implies #[trigger] is_tile(
            closed,
            i,
            offset as int,
        ) by {
            if i + 1 < closed.len() {
                assert(is_tile(entries, i, offset as int));
                assert(closed[i] == entries[i]);
                assert(closed[i + 1].start == entries[i + 1].start);
            }
        }
    }
}

proof fn line_keeps_place(e: Entry, text: Seq<u8>, offset: u64)
    requires
        entry_after_line(e, text, offset) is Ok,
    ensures
        entry_after_line(e, text, offset)->Ok_0.start == e.start,
        entry_after_line(e, text, offset)->Ok_0.ranges == e.ranges,
{
}

proof fn line_keeps_tiles(entries: Seq<Entry>, text: Seq<u8>, offset: u64, length: int)
    requires
        tiled(entries, offset as int),
        entries_after_line(entries, text, offset, length) is Ok,
        length > 0,
    ensures
        tiled(entries_after_line(entries, text, offset, length)->Ok_0, offset + length),
{
    reveal(entries_after_line);
    let next = entries_after_line(entries, text, offset, length)->Ok_0;
    if starts(text, utf8("diff --git "@)) {
        closing_tiles(entries, offset);
        let closed = closed_at(entries, offset);
        assert(next.drop_last() =~= closed);
        assert forall|i: int| 0 <= i < next.len() - 1 implies #[trigger] is_tile(
            next,
            i,
            offset + length,
        ) by {
            assert(is_tile(closed, i, offset as int));
            assert(next[i] == closed[i]);
            if i + 1 < closed.len() {
                assert(next[i + 1] == closed[i + 1]);
            }
        }
    } else if entries.len() > 0 {
        line_keeps_place(entries.last(), text, offset);
        assert forall|i: int| 0 <= i < next.len() - 1 implies #[trigger] is_tile(
            next,
            i,
            offset + length,
        ) by {
            assert(is_tile(entries, i, offset as int));
            assert(next[i] == entries[i]);
            if i + 1 < next.len() - 1 {
                assert(next[i + 1] == entries[i + 1]);
            }
        }
    }
}

proof fn reading_keeps_tiles(patch: Seq<u8>, offset: int, entries: Seq<Entry>)
    requires
        0 <= offset <= patch.len() <= u64::MAX,
        tiled(entries, offset),
        entries_from(patch, offset, entries) is Ok,
    ensures
        tiled(entries_from(patch, offset, entries)->Ok_0, patch.len() as int),
    decreases patch.len() - offset,
{
    if offset < patch.len() {
        line_end_is_ahead(patch, offset);
        let end = line_end(patch, offset);
        let text = line_text(patch, offset, end);
        line_keeps_tiles(entries, text, offset as u64, end - offset);
        reading_keeps_tiles(
            patch,
            end,
            entries_after_line(entries, text, offset as u64, end - offset)->Ok_0,
        );
    }
}

/// The records of an index follow one another without a gap and reach the end of the patch: each
/// entry's one range is its record, and every byte from the first header on belongs to one entry.
pub proof fn index_covers_the_patch(patch: Seq<u8>, i: int)
    requires
        patch.len() <= u64::MAX,
        index_of(patch) is Ok,
        0 <= i < index_of(patch)->Ok_0.len(),
    ensures
        is_tile(index_of(patch)->Ok_0, i, patch.len() as int),
{
    reading_keeps_tiles(patch, 0, Seq::empty());
    closing_tiles(entries_from(patch, 0, Seq::empty())->Ok_0, patch.len() as u64);
}

/// How many bytes of the patch the entries stand for.
pub open spec fn total_bytes(entries: Seq<Entry>) -> int
    decreases entries.len(),
{
    if entries.len() == 0 {
        0
    } else {
        total_bytes(entries.drop_last()) + entries.last().bytes
    }
}

proof fn total_of_tiles(entries: Seq<Entry>, n: int, end: int)
    requires
        0 < n <= entries.len(),
        forall|i: int| 0 <= i < entries.len() ==> #[trigger] is_tile(entries, i, end),
    ensures
        total_bytes(entries.take(n)) == (if n < entries.len() {
            entries[n].start as int
        } else {
            end
        }) - entries[0].start,
    decreases n,
{
    assert(is_tile(entries, n - 1, end));
    assert(entries.take(n).drop_last() =~= entries.take(n - 1));
    if n > 1 {
        total_of_tiles(entries, n - 1, end);
    } else {
        assert(total_bytes(entries.take(0)) == 0);
    }
}

/// The entries of an index stand for all bytes of the patch from the first header on.
pub proof fn index_keeps_every_byte(patch: Seq<u8>)
    requires
        patch.len() <= u64::MAX,
        index_of(patch) is Ok,
        index_of(patch)->Ok_0.len() > 0,
    ensures
        total_bytes(index_of(patch)->Ok_0) == patch.len() - index_of(patch)->Ok_0[0].start,
{
    let entries = index_of(patch)->Ok_0;
    assert forall|i: int| 0 <= i < entries.len() implies #[trigger] is_tile(
        entries,
        i,
        patch.len() as int,
    ) by {
        index_covers_the_patch(patch, i);
    }
    total_of_tiles(entries, entries.len() as int, patch.len() as int);
    assert(entries.take(entries.len() as int) =~= entries);
}

/// Whether an entry may be the old side of a move: a deleted regular file of known contents.
pub open spec fn moves_away(e: Entry) -> bool {
    e.kind == ChangeKind::Deleted && e.regular && e.blob is Some
}

/// Whether an entry may be the new side of a move: an added regular file of known contents.
pub open spec fn moves_in(e: Entry) -> bool {
    e.kind == ChangeKind::Added && e.regular && e.blob is Some
}

/// The indices below `n` of entries that may be the old side of a move, in order.
pub open spec fn moving_away(entries: Seq<Entry>, n: int) -> Seq<int>
    decreases n,
{
    if n <= 0 {
        Seq::empty()
    } else if moves_away(entries[n - 1]) {
        moving_away(entries, n - 1).push(n - 1)
    } else {
        moving_away(entries, n - 1)
    }
}

/// The last position below `n` in `removed` whose entry has the contents `blob`, or -1.
pub open spec fn last_with_blob(entries: Seq<Entry>, removed: Seq<int>, blob: Option<Seq<u8>>, n: int) -> int
    decreases n,
{
    if n <= 0 {
        -1
    } else if entries[removed[n - 1]].blob == blob {
        n - 1
    } else {
        last_with_blob(entries, removed, blob, n - 1)
    }
}

/// The offsets of hunks behind a record of `by` bytes.
pub open spec fn shifted(hunks: Seq<u64>, by: u64) -> Seq<u64> {
    Seq::new(hunks.len(), |k: int| (hunks[k] + by) as u64)
}

/// The entry for a file that moved: the added file, with the deleted one before it.
pub open spec fn moved(current: Entry, previous: Entry) -> Entry {
    Entry {
        kind: ChangeKind::Renamed,
        previous: Some(previous.path),
        hunks: previous.hunks + shifted(current.hunks, previous.bytes),
        ranges: previous.ranges + current.ranges,
        bytes: (current.bytes + previous.bytes) as u64,
        additions: if current.binary {
            None
        } else {
            Some(0u64)
        },
        deletions: if current.binary {
            None
        } else {
            Some(0u64)
        },
        ..current
    }
}

/// The entries and the paired indices once the entries from `index` on have been looked at: each
/// added file is paired with the last deleted file of the same contents that is left.
pub open spec fn paired_from(
    entries: Seq<Entry>,
    index: int,
    removed: Seq<int>,
    paired: Seq<int>,
) -> (Seq<Entry>, Seq<int>)
    decreases entries.len() - index,
{
    if index < 0 || index >= entries.len() {
        (entries, paired)
    } else if !moves_in(entries[index]) {
        paired_from(entries, index + 1, removed, paired)
    } else {
        let p = last_with_blob(entries, removed, entries[index].blob, removed.len() as int);
        if p < 0 {
            paired_from(entries, index + 1, removed, paired)
        } else {
            let old_side = removed[p];
            paired_from(
                entries.update(index, moved(entries[index], entries[old_side])),
                index + 1,
                removed.remove(p),
                paired.push(old_side),
            )
        }
    }
}

/// The entries below `n` that are not paired, in order.
pub open spec fn unpaired(entries: Seq<Entry>, paired: Seq<int>, n: int) -> Seq<Entry>
    decreases n,
{
    if n <= 0 {
        Seq::empty()
    } else if paired.contains(n - 1) {
        unpaired(entries, paired, n - 1)
    } else {
        unpaired(entries, paired, n - 1).push(entries[n - 1])
    }
}

/// The entries with every byte-identical deletion and addition shown as one move.
pub open spec fn with_moves(entries: Seq<Entry>) -> Seq<Entry> {
    let (shown, paired) = paired_from(
        entries,
        0,
        moving_away(entries, entries.len() as int),
        Seq::empty(),
    );
    unpaired(shown, paired, shown.len() as int)
}

/// Whether the sizes of the entries can be added up, and no hunk stands behind its record.
pub open spec fn sizes_fit(entries: Seq<Entry>) -> bool {
    &&& total_bytes(entries) <= u64::MAX
    &&& forall|i: int, k: int|
        0 <= i < entries.len() && 0 <= k < entries[i].hunks.len() ==> (
        #[trigger] entries[i].hunks[k]) <= entries[i].bytes
}

proof fn total_is_not_negative(entries: Seq<Entry>)
    ensures
        total_bytes(entries) >= 0,
    decreases entries.len(),
{
    if entries.len() > 0 {
        total_is_not_negative(entries.drop_last());
    }
}

proof fn one_is_within_total(entries: Seq<Entry>, i: int)
    requires
        0 <= i < entries.len(),
    ensures
        entries[i].bytes <= total_bytes(entries),
    decreases entries.len(),
{
    total_is_not_negative(entries.drop_last());
    if i < entries.len() - 1 {
        one_is_within_total(entries.drop_last(), i);
    }
}

proof fn two_are_within_total(entries: Seq<Entry>, i: int, j: int)
    requires
        0 <= i < j < entries.len(),
    ensures
        entries[i].bytes + entries[j].bytes <= total_bytes(entries),
    decreases entries.len(),
{
    if j < entries.len() - 1 {
        two_are_within_total(entries.drop_last(), i, j);
    } else {
        one_is_within_total(entries.drop_last(), i);
    }
}

/// The indices in a list of positions.
spec fn indices(v: Seq<usize>) -> Seq<int> {
    Seq::new(v.len(), |i: int| v[i] as int)
}

proof fn moving_away_names_deletions(entries: Seq<Entry>, n: int)
    requires
        n <= entries.len(),
    ensures
        forall|k: int|
            0 <= k < moving_away(entries, n).len() ==> 0 <= #[trigger] moving_away(entries, n)[k] < n
                && moves_away(entries[moving_away(entries, n)[k]]),
        forall|a: int, b: int|
            0 <= a < b < moving_away(entries, n).len() ==> #[trigger] moving_away(entries, n)[a]
                < #[trigger] moving_away(entries, n)[b],
    decreases n,
{
    if n > 0 {
        moving_away_names_deletions(entries, n - 1);
        let earlier = moving_away(entries, n - 1);
        let all = moving_away(entries, n);
        assert forall|k: int| 0 <= k < all.len() implies 0 <= #[trigger] all[k] < n && moves_away(
            entries[all[k]],
        ) by {
            if k < earlier.len() {
                assert(all[k] == earlier[k]);
            }
        }
        assert forall|a: int, b: int| 0 <= a < b < all.len() implies #[trigger] all[a]
            < #[trigger] all[b] by {
            assert(all[a] == earlier[a]);
            if b < earlier.len() {
                assert(all[b] == earlier[b]);
            }
        }
    }
}

fn same_blob(a: &Option<Vec<u8>>, b: &Option<Vec<u8>>) -> (r: bool)
    ensures
        r == (optional_bytes(*a) == optional_bytes(*b)),
{
    match (a, b) {
        (Some(x), Some(y)) => same_bytes(x, y),
        (None, None) => true,
        _ => false,
    }
}

fn find_moving_away(entries: &Vec<ChangeEntry>) -> (r: Vec<usize>)
    ensures
        indices(r@) == moving_away(entry_views(entries@), entries@.len() as int),
{
    let mut out: Vec<usize> = Vec::new();
    let ghost all = entry_views(entries@);
    let mut i: usize = 0;
    assert(indices(out@) =~= moving_away(all, 0));
    while i < entries.len()
        invariant
            i <= entries.len(),
            all == entry_views(entries@),
            indices(out@) == moving_away(all, i as int),
        decreases entries.len() - i,
    {
        assert(all[i as int] == entries@[i as int]@);
        if entries[i].kind == ChangeKind::Deleted && entries[i].regular && entries[i].blob.is_some() {
            let ghost earlier = out@;
            out.push(i);
            assert(indices(out@) =~= indices(earlier).push(i as int));
        }
        i += 1;
    }
    out
}

fn find_last_with_blob(entries: &Vec<ChangeEntry>, removed: &Vec<usize>, index: usize) -> (r: Option<usize>)
    requires
        index < entries.len(),
        forall|k: int| 0 <= k < removed.len() ==> #[trigger] removed@[k] < entries.len(),
    ensures
        ({
            let p = last_with_blob(
                entry_views(entries@),
                indices(removed@),
                entry_views(entries@)[index as int].blob,
                removed@.len() as int,
            );
            match r {
                Some(k) => p == k && k < removed.len(),
                None => p < 0,
            }
        }),
{
    let ghost all = entry_views(entries@);
    let ghost list = indices(removed@);
    let mut n: usize = removed.len();
    while n > 0
        invariant
            n <= removed.len(),
            index < entries.len(),
            all == entry_views(entries@),
            list == indices(removed@),
            forall|k: int| 0 <= k < removed.len() ==> #[trigger] removed@[k] < entries.len(),
            last_with_blob(all, list, all[index as int].blob, removed@.len() as int)
                == last_with_blob(all, list, all[index as int].blob, n as int),
        decreases n,
    {
        let at = removed[n - 1];
        assert(list[n - 1] == at);
        assert(all[at as int] == entries@[at as int]@);
        assert(all[index as int] == entries@[index as int]@);
        if same_blob(&entries[at].blob, &entries[index].blob) {
            return Some(n - 1);
        }
        n -= 1;
    }
    None
}

fn move_entry(current: &mut ChangeEntry, previous: &ChangeEntry)
    requires
        old(current)@.bytes + previous@.bytes <= u64::MAX,
        forall|k: int|
            0 <= k < old(current)@.hunks.len() ==> #[trigger] old(current)@.hunks[k]
                <= old(current)@.bytes,
    ensures
        final(current)@ == moved(old(current)@, previous@),
{
    let ghost before = current@;
    let mut hunks: Vec<u64> = Vec::new();
    let mut i: usize = 0;
    while i < previous.hunks.len()
        invariant
            i <= previous.hunks.len(),
            hunks@ == previous.hunks@.take(i as int),
        decreases previous.hunks.len() - i,
    {
        hunks.push(previous.hunks[i]);
        i += 1;
    }
    assert(previous.hunks@.take(previous.hunks@.len() as int) =~= previous.hunks@);
    let mut k: usize = 0;
    assert(hunks@ =~= previous.hunks@ + shifted(before.hunks, previous.bytes).take(0));
    while k < current.hunks.len()
        invariant
            k <= current.hunks.len(),
            current@ == before,
            before.hunks == current.hunks@,
            before.bytes + previous.bytes <= u64::MAX,
            forall|j: int| 0 <= j < before.hunks.len() ==> #[trigger] before.hunks[j] <= before.bytes,
            hunks@ == previous.hunks@ + shifted(before.hunks, previous.bytes).take(k as int),
        decreases current.hunks.len() - k,
    {
        assert(before.hunks[k as int] <= before.bytes);
        hunks.push(current.hunks[k] + previous.bytes);
        assert(hunks@ =~= previous.hunks@ + shifted(before.hunks, previous.bytes).take(k as int + 1));
        k += 1;
    }
    assert(shifted(before.hunks, previous.bytes).take(before.hunks.len() as int) =~= shifted(
        before.hunks,
        previous.bytes,
    ));
    let mut ranges: Vec<(u64, u64)> = Vec::new();
    let mut a: usize = 0;
    while a < previous.ranges.len()
        invariant
            a <= previous.ranges.len(),
            ranges@ == previous.ranges@.take(a as int),
        decreases previous.ranges.len() - a,
    {
        ranges.push(previous.ranges[a]);
        a += 1;
    }
    assert(previous.ranges@.take(previous.ranges@.len() as int) =~= previous.ranges@);
    let mut b: usize = 0;
    assert(ranges@ =~= previous.ranges@ + before.ranges.take(0));
    while b < current.ranges.len()
        invariant
            b <= current.ranges.len(),
            before.ranges == current.ranges@,
            ranges@ == previous.ranges@ + before.ranges.take(b as int),
        decreases current.ranges.len() - b,
    {
        ranges.push(current.ranges[b]);
        assert(ranges@ =~= previous.ranges@ + before.ranges.take(b as int + 1));
        b += 1;
    }
    assert(before.ranges.take(before.ranges.len() as int) =~= before.ranges);
    current.kind = ChangeKind::Renamed;
    current.previous_path = Some(copy_bytes(&previous.path));
    current.hunks = hunks;
    current.ranges = ranges;
    current.bytes = current.bytes + previous.bytes;
    current.additions = if current.binary {
        None
    } else {
        Some(0)
    };
    current.deletions = if current.binary {
        None
    } else {
        Some(0)
    };
}

fn is_listed(v: &Vec<usize>, i: usize) -> (r: bool)
    ensures
        r == indices(v@).contains(i as int),
{
    let mut k: usize = 0;
    while k < v.len()
        invariant
            k <= v.len(),
            forall|j: int| 0 <= j < k ==> v@[j] != i,
        decreases v.len() - k,
    {
        if v[k] == i {
            assert(indices(v@)[k as int] == i as int);
            return true;
        }
        k += 1;
    }
    assert forall|j: int| 0 <= j < indices(v@).len() implies indices(v@)[j] != i as int by {}
    false
}

/// Shows every byte-identical deletion and addition of a regular file as one move. Both records stay
/// available; what is applied is the untouched patch.
pub fn detect_identical_moves(entries: &mut Vec<ChangeEntry>)
    requires
        sizes_fit(entry_views(old(entries)@)),
    ensures
        entry_views(final(entries)@) == with_moves(entry_views(old(entries)@)),
{
    let ghost original = entry_views(entries@);
    let ghost n = entries@.len() as int;
    let mut removed = find_moving_away(entries);
    proof {
        moving_away_names_deletions(original, n);
        assert forall|k: int| 0 <= k < removed@.len() implies #[trigger] removed@[k] < n && moves_away(
            original[removed@[k] as int],
        ) by {
            assert(indices(removed@)[k] == removed@[k] as int);
        }
    }
    let mut paired: Vec<usize> = Vec::new();
    assert(indices(paired@) =~= Seq::empty());
    let mut index: usize = 0;
    while index < entries.len()
        invariant
            index <= entries.len(),
            n == original.len(),
            entries@.len() == n,
            sizes_fit(original),
            forall|j: int| index <= j < n ==> #[trigger] entry_views(entries@)[j] == original[j],
            forall|j: int|
                0 <= j < n && moves_away(original[j]) ==> #[trigger] entry_views(entries@)[j]
                    == original[j],
            forall|k: int|
                0 <= k < removed@.len() ==> #[trigger] removed@[k] < n && moves_away(
                    original[removed@[k] as int],
                ),
            paired_from(original, 0, moving_away(original, n), Seq::empty()) == paired_from(
                entry_views(entries@),
                index as int,
                indices(removed@),
                indices(paired@),
            ),
        decreases entries.len() - index,
    {
        let ghost all = entry_views(entries@);
        let ghost list = indices(removed@);
        assert(all[index as int] == entries@[index as int]@);
        assert(all[index as int] == original[index as int]);
        if entries[index].kind == ChangeKind::Added && entries[index].regular
            && entries[index].blob.is_some() {
            if let Some(p) = find_last_with_blob(entries, &removed, index) {
                let old_side = removed[p];
                assert(list[p as int] == old_side as int);
                let ghost earlier = removed@;
                removed.remove(p);
                assert(indices(removed@) =~= list.remove(p as int));
                proof {
                    assert(moves_away(original[old_side as int]));
                    assert(old_side != index);
                    if old_side < index {
                        two_are_within_total(original, old_side as int, index as int);
                    } else {
                        two_are_within_total(original, index as int, old_side as int);
                    }
                    assert(all[old_side as int] == original[old_side as int]);
                    assert(all[old_side as int] == entries@[old_side as int]@);
                    assert forall|k: int| 0 <= k < original[index as int].hunks.len() implies
                        #[trigger] original[index as int].hunks[k] <= original[index as int].bytes by {}
                    assert forall|k: int| 0 <= k < removed@.len() implies #[trigger] removed@[k] < n
                        && moves_away(original[removed@[k] as int]) by {
                        let q = if k < p {
                            k
                        } else {
                            k + 1
                        };
                        assert(removed@[k] == earlier[q]);
                    }
                }
                let previous = copy_entry(&entries[old_side]);
                let mut current = copy_entry(&entries[index]);
                move_entry(&mut current, &previous);
                let ghost shown = current@;
                let ghost before = entries@;
                entries.set(index, current);
                let ghost marks = indices(paired@);
                paired.push(old_side);
                proof {
                    assert(entry_views(entries@) =~= all.update(index as int, shown));
                    assert(indices(paired@) =~= marks.push(old_side as int));
                }
            }
        }
        index += 1;
    }
    let ghost shown = entry_views(entries@);
    let mut kept: Vec<ChangeEntry> = Vec::new();
    let mut i: usize = 0;
    assert(entry_views(kept@) =~= unpaired(shown, indices(paired@), 0));
    while i < entries.len()
        invariant
            i <= entries.len(),
            shown == entry_views(entries@),
            entry_views(kept@) == unpaired(shown, indices(paired@), i as int),
        decreases entries.len() - i,
    {
        assert(shown[i as int] == entries@[i as int]@);
        if !is_listed(&paired, i) {
            let ghost earlier = kept@;
            kept.push(copy_entry(&entries[i]));
            assert(entry_views(kept@) =~= entry_views(earlier).push(shown[i as int]));
        }
        i += 1;
    }
    *entries = kept;
}

fn copy_entry(e: &ChangeEntry) -> (r: ChangeEntry)
    ensures
        r@ == e@,
{
    let mut hunks: Vec<u64> = Vec::new();
    let mut i: usize = 0;
    while i < e.hunks.len()
        invariant
            i <= e.hunks.len(),
            hunks@ == e.hunks@.take(i as int),
        decreases e.hunks.len() - i,
    {
        hunks.push(e.hunks[i]);
        i += 1;
    }
    assert(e.hunks@.take(e.hunks@.len() as int) =~= e.hunks@);
    let mut ranges: Vec<(u64, u64)> = Vec::new();
    let mut a: usize = 0;
    while a < e.ranges.len()
        invariant
            a <= e.ranges.len(),
            ranges@ == e.ranges@.take(a as int),
        decreases e.ranges.len() - a,
    {
        ranges.push(e.ranges[a]);
        a += 1;
    }
    assert(e.ranges@.take(e.ranges@.len() as int) =~= e.ranges@);
    ChangeEntry {
        path: copy_bytes(&e.path),
        previous_path: match &e.previous_path {
            Some(path) => Some(copy_bytes(path)),
            None => None,
        },
        kind: e.kind,
        additions: e.additions,
        deletions: e.deletions,
        binary: e.binary,
        permission_change: e.permission_change,
        bytes: e.bytes,
        hunks,
        start: e.start,
        ranges,
        blob: match &e.blob {
            Some(blob) => Some(copy_bytes(blob)),
            None => None,
        },
        regular: e.regular,
    }
}

proof fn total_of_push(entries: Seq<Entry>, e: Entry)
    ensures
        total_bytes(entries.push(e)) == total_bytes(entries) + e.bytes,
{
    assert(entries.push(e).drop_last() =~= entries);
}

proof fn pairing_keeps_total(
    entries: Seq<Entry>,
    paired: Seq<int>,
    index: int,
    old_side: int,
    shown: Entry,
    n: int,
)
    requires
        0 <= index < entries.len(),
        0 <= old_side < entries.len(),
        index != old_side,
        !paired.contains(index),
        !paired.contains(old_side),
        shown.bytes == entries[index].bytes + entries[old_side].bytes,
        0 <= n <= entries.len(),
    ensures
        total_bytes(unpaired(entries.update(index, shown), paired.push(old_side), n))
            == total_bytes(unpaired(entries, paired, n)) + (if index < n {
            entries[old_side].bytes as int
        } else {
            0
        }) - (if old_side < n {
            entries[old_side].bytes as int
        } else {
            0
        }),
    decreases n,
{
    let later = entries.update(index, shown);
    let marks = paired.push(old_side);
    if n > 0 {
        pairing_keeps_total(entries, paired, index, old_side, shown, n - 1);
        let m = n - 1;
        assert(marks.contains(m) == (paired.contains(m) || m == old_side)) by {
            if paired.contains(m) {
                let k = choose|k: int| 0 <= k < paired.len() && paired[k] == m;
                assert(marks[k] == m);
            }
            if m == old_side {
                assert(marks[paired.len() as int] == m);
            }
            if marks.contains(m) {
                let k = choose|k: int| 0 <= k < marks.len() && marks[k] == m;
                if k < paired.len() {
                    assert(paired[k] == m);
                }
            }
        }
        total_of_push(unpaired(later, marks, m), later[m]);
        total_of_push(unpaired(entries, paired, m), entries[m]);
    }
}

proof fn nothing_paired_yet(entries: Seq<Entry>, n: int)
    requires
        0 <= n <= entries.len(),
    ensures
        unpaired(entries, Seq::empty(), n) == entries.take(n),
    decreases n,
{
    if n > 0 {
        nothing_paired_yet(entries, n - 1);
        assert(entries.take(n) =~= entries.take(n - 1).push(entries[n - 1]));
    } else {
        assert(entries.take(0) =~= Seq::empty());
    }
}

proof fn last_with_blob_is_listed(entries: Seq<Entry>, removed: Seq<int>, blob: Option<Seq<u8>>, n: int)
    requires
        n <= removed.len(),
    ensures
        last_with_blob(entries, removed, blob, n) < n || n <= 0,
        last_with_blob(entries, removed, blob, n) >= -1,
    decreases n,
{
    if n > 0 {
        last_with_blob_is_listed(entries, removed, blob, n - 1);
    }
}

proof fn pairing_all_keeps_total(
    original: Seq<Entry>,
    entries: Seq<Entry>,
    index: int,
    removed: Seq<int>,
    paired: Seq<int>,
)
    requires
        sizes_fit(original),
        entries.len() == original.len(),
        0 <= index <= entries.len(),
        forall|j: int| index <= j < entries.len() ==> #[trigger] entries[j] == original[j],
        forall|j: int|
            0 <= j < entries.len() && moves_away(original[j]) ==> #[trigger] entries[j]
                == original[j],
        forall|k: int|
            0 <= k < removed.len() ==> 0 <= #[trigger] removed[k] < entries.len() && moves_away(
                original[removed[k]],
            ) && !paired.contains(removed[k]),
        forall|a: int, b: int|
            0 <= a < b < removed.len() ==> #[trigger] removed[a] < #[trigger] removed[b],
        forall|k: int|
            0 <= k < paired.len() ==> 0 <= #[trigger] paired[k] < entries.len() && moves_away(
                original[paired[k]],
            ),
    ensures
        ({
            let (shown, marks) = paired_from(entries, index, removed, paired);
            &&& shown.len() == entries.len()
            &&& total_bytes(unpaired(shown, marks, shown.len() as int)) == total_bytes(
                unpaired(entries, paired, entries.len() as int),
            )
        }),
    decreases entries.len() - index,
{
    if index < entries.len() {
        if !moves_in(entries[index]) {
            pairing_all_keeps_total(original, entries, index + 1, removed, paired);
        } else {
            let p = last_with_blob(entries, removed, entries[index].blob, removed.len() as int);
            last_with_blob_is_listed(entries, removed, entries[index].blob, removed.len() as int);
            if p < 0 {
                pairing_all_keeps_total(original, entries, index + 1, removed, paired);
            } else {
                let old_side = removed[p];
                let shown = moved(entries[index], entries[old_side]);
                assert(moves_away(original[old_side]));
                assert(entries[index] == original[index]);
                if old_side < index {
                    two_are_within_total(original, old_side, index);
                } else {
                    two_are_within_total(original, index, old_side);
                }
                assert(!paired.contains(index)) by {
                    if paired.contains(index) {
                        let k = choose|k: int| 0 <= k < paired.len() && paired[k] == index;
                        assert(moves_away(original[paired[k]]));
                    }
                }
                let later = entries.update(index, shown);
                let left = removed.remove(p);
                let marks = paired.push(old_side);
                assert forall|k: int| 0 <= k < left.len() implies 0 <= #[trigger] left[k]
                    < later.len() && moves_away(original[left[k]]) && !marks.contains(left[k]) by {
                    let q = if k < p {
                        k
                    } else {
                        k + 1
                    };
                    assert(left[k] == removed[q]);
                    assert(removed[q] != old_side) by {
                        if q < p {
                            assert(removed[q] < removed[p]);
                        } else {
                            assert(removed[p] < removed[q]);
                        }
                    }
                    if marks.contains(left[k]) {
                        let m = choose|m: int| 0 <= m < marks.len() && marks[m] == left[k];
                        if m < paired.len() {
                            assert(paired[m] == removed[q]);
                            assert(paired.contains(removed[q]));
                        }
                    }
                }
                assert forall|a: int, b: int| 0 <= a < b < left.len() implies #[trigger] left[a]
                    < #[trigger] left[b] by {
                    let x = if a < p {
                        a
                    } else {
                        a + 1
                    };
                    let y = if b < p {
                        b
                    } else {
                        b + 1
                    };
                    assert(left[a] == removed[x] && left[b] == removed[y]);
                }
                assert forall|k: int| 0 <= k < marks.len() implies 0 <= #[trigger] marks[k]
                    < later.len() && moves_away(original[marks[k]]) by {
                    if k < paired.len() {
                        assert(marks[k] == paired[k]);
                    }
                }
                assert forall|j: int| 0 <= j < later.len() && moves_away(original[j]) implies
                    #[trigger] later[j] == original[j] by {
                    assert(entries[j] == original[j]);
                }
                pairing_keeps_total(
                    entries,
                    paired,
                    index,
                    old_side,
                    shown,
                    entries.len() as int,
                );
                pairing_all_keeps_total(original, later, index + 1, left, marks);
            }
        }
    }
}

/// Showing moves loses no byte of the patch: the entries stand for as many bytes as before.
pub proof fn moves_keep_every_byte(entries: Seq<Entry>)
    requires
        sizes_fit(entries),
    ensures
        total_bytes(with_moves(entries)) == total_bytes(entries),
{
    let n = entries.len() as int;
    let removed = moving_away(entries, n);
    moving_away_names_deletions(entries, n);
    assert forall|k: int| 0 <= k < removed.len() implies 0 <= #[trigger] removed[k] < n && moves_away(
        entries[removed[k]],
    ) && !Seq::<int>::empty().contains(removed[k]) by {}
    pairing_all_keeps_total(entries, entries, 0, removed, Seq::empty());
    nothing_paired_yet(entries, n);
    assert(entries.take(n) =~= entries);
}

/// Whether no hunk of an entry stands behind `limit`.
spec fn hunks_within(e: Entry, limit: int) -> bool {
    forall|k: int| 0 <= k < e.hunks.len() ==> #[trigger] e.hunks[k] <= limit
}

/// Whether no hunk stands behind its record, the last record still open at `offset`.
spec fn hunks_fit(entries: Seq<Entry>, offset: int) -> bool {
    &&& forall|i: int|
        0 <= i < entries.len() - 1 ==> hunks_within(#[trigger] entries[i], entries[i].bytes as int)
    &&& entries.len() > 0 ==> entries.last().start <= offset && hunks_within(
        entries.last(),
        offset - entries.last().start,
    )
}

proof fn line_keeps_hunks(e: Entry, text: Seq<u8>, offset: u64)
    requires
        entry_after_line(e, text, offset) is Ok,
        e.start <= offset,
        hunks_within(e, offset - e.start),
    ensures
        hunks_within(entry_after_line(e, text, offset)->Ok_0, offset - e.start),
{
    let after = entry_after_line(e, text, offset)->Ok_0;
    assert forall|k: int| 0 <= k < after.hunks.len() implies #[trigger] after.hunks[k] <= offset
        - e.start by {
        if k < e.hunks.len() {
            assert(after.hunks[k] == e.hunks[k]);
        }
    }
}

proof fn reading_keeps_hunks(patch: Seq<u8>, offset: int, entries: Seq<Entry>)
    requires
        0 <= offset <= patch.len() <= u64::MAX,
        hunks_fit(entries, offset),
        entries_from(patch, offset, entries) is Ok,
    ensures
        hunks_fit(entries_from(patch, offset, entries)->Ok_0, patch.len() as int),
    decreases patch.len() - offset,
{
    if offset < patch.len() {
        line_end_is_ahead(patch, offset);
        let end = line_end(patch, offset);
        let text = line_text(patch, offset, end);
        let at = offset as u64;
        let next = entries_after_line(entries, text, at, end - offset)->Ok_0;
        assert(hunks_fit(next, end)) by {
            reveal(entries_after_line);
            if starts(text, utf8("diff --git "@)) {
                let closed = closed_at(entries, at);
                assert(next.drop_last() =~= closed);
                assert forall|i: int| 0 <= i < next.len() - 1 implies hunks_within(
                    #[trigger] next[i],
                    next[i].bytes as int,
                ) by {
                    assert(next[i] == closed[i]);
                    if i < entries.len() - 1 {
                        assert(closed[i] == entries[i]);
                    } else {
                        assert(closed[i].hunks == entries.last().hunks);
                    }
                }
            } else if entries.len() > 0 {
                line_keeps_place(entries.last(), text, at);
                line_keeps_hunks(entries.last(), text, at);
                assert forall|i: int| 0 <= i < next.len() - 1 implies hunks_within(
                    #[trigger] next[i],
                    next[i].bytes as int,
                ) by {
                    assert(next[i] == entries[i]);
                }
            }
        }
        reading_keeps_hunks(patch, end, next);
    }
}

/// The entries of an index can be shown as moves: their sizes add up to no more than the patch has
/// bytes, and no hunk stands behind its record.
pub proof fn index_sizes_fit(patch: Seq<u8>)
    requires
        patch.len() <= u64::MAX,
        index_of(patch) is Ok,
    ensures
        sizes_fit(index_of(patch)->Ok_0),
{
    let open = entries_from(patch, 0, Seq::empty())->Ok_0;
    let entries = index_of(patch)->Ok_0;
    reading_keeps_hunks(patch, 0, Seq::empty());
    if entries.len() > 0 {
        index_keeps_every_byte(patch);
    }
    assert forall|i: int, k: int|
        0 <= i < entries.len() && 0 <= k < entries[i].hunks.len() implies (
    #[trigger] entries[i].hunks[k]) <= entries[i].bytes by {
        if i < entries.len() - 1 {
            assert(entries[i] == open[i]);
        } else {
            assert(entries[i].hunks == open.last().hunks);
        }
        assert(hunks_within(open[i], entries[i].bytes as int));
    }
}

/// The entries that a review of a patch shows.
pub fn review_entries(patch: &Vec<u8>) -> (r: Result<Vec<ChangeEntry>, String>)
    ensures
        match index_of(patch@) {
            Ok(entries) => r matches Ok(v) && entry_views(v@) == with_moves(entries),
            Err(message) => r matches Err(e) && e@ == message,
        },
{
    match index_patch(patch) {
        Err(message) => Err(message),
        Ok(entries) => {
            let size: usize = patch.len();
            proof {
                assert(patch@.len() == size <= u64::MAX);
                index_sizes_fit(patch@);
            }
            let mut shown = entries;
            detect_identical_moves(&mut shown);
            Ok(shown)
        },
    }
}

/// The bytes of the patch from `from`, at most `count` and as far as the patch goes.
pub open spec fn patch_part(patch: Seq<u8>, from: int, count: int) -> Seq<u8> {
    if from >= patch.len() || count <= 0 {
        Seq::empty()
    } else if from + count <= patch.len() {
        patch.subrange(from, from + count)
    } else {
        patch.subrange(from, patch.len() as int)
    }
}

/// What the ranges from the one at `index` on show behind the first `skip` bytes, at most
/// `remaining` bytes.
pub open spec fn shown_bytes(
    patch: Seq<u8>,
    ranges: Seq<(u64, u64)>,
    index: int,
    skip: int,
    remaining: int,
) -> Seq<u8>
    decreases ranges.len() - index,
{
    if index < 0 || index >= ranges.len() || remaining <= 0 {
        Seq::empty()
    } else {
        let (start, length) = ranges[index];
        if skip >= length {
            shown_bytes(patch, ranges, index + 1, skip - length, remaining)
        } else {
            let count = if remaining < length - skip {
                remaining
            } else {
                length - skip
            };
            patch_part(patch, start + skip, count) + shown_bytes(
                patch,
                ranges,
                index + 1,
                0,
                remaining - count,
            )
        }
    }
}

/// How much of a change one preview may show.
pub open spec fn preview_budget(budget: usize) -> int {
    if budget < 1 {
        1
    } else if budget > MAX_PREVIEW {
        MAX_PREVIEW as int
    } else {
        budget as int
    }
}

/// The bytes of a change that a preview from `offset` on shows. The ranges of the entry lie within
/// the range of file offsets.
pub fn preview_bytes(entry: &ChangeEntry, patch: &Vec<u8>, offset: u64, budget: usize) -> (r: Vec<u8>)
    requires
        forall|i: int|
            0 <= i < entry.ranges@.len() ==> (#[trigger] entry.ranges@[i]).0 + entry.ranges@[i].1
                <= u64::MAX,
    ensures
        r@ == shown_bytes(
            patch@,
            entry.ranges@,
            0,
            if offset < entry.bytes {
                offset as int
            } else {
                entry.bytes as int
            },
            preview_budget(budget),
        ),
        r@.len() <= preview_budget(budget),
{
    let mut out: Vec<u8> = Vec::new();
    let mut skip: u64 = if offset < entry.bytes {
        offset
    } else {
        entry.bytes
    };
    let mut remaining: u64 = if budget < 1 {
        1
    } else if budget > MAX_PREVIEW {
        MAX_PREVIEW as u64
    } else {
        budget as u64
    };
    let ghost first = skip as int;
    let ghost most = remaining as int;
    let mut i: usize = 0;
    assert(Seq::<u8>::empty() + shown_bytes(patch@, entry.ranges@, 0, first, most) =~= shown_bytes(
        patch@,
        entry.ranges@,
        0,
        first,
        most,
    ));
    while i < entry.ranges.len() && remaining > 0
        invariant
            i <= entry.ranges.len(),
            forall|k: int|
                0 <= k < entry.ranges@.len() ==> (#[trigger] entry.ranges@[k]).0
                    + entry.ranges@[k].1 <= u64::MAX,
            out@.len() + remaining <= most,
            shown_bytes(patch@, entry.ranges@, 0, first, most) == out@ + shown_bytes(
                patch@,
                entry.ranges@,
                i as int,
                skip as int,
                remaining as int,
            ),
        decreases entry.ranges.len() - i,
    {
        let (start, length) = entry.ranges[i];
        assert(entry.ranges@[i as int].0 + entry.ranges@[i as int].1 <= u64::MAX);
        if skip >= length {
            skip = skip - length;
        } else {
            let count: u64 = if remaining < length - skip {
                remaining
            } else {
                length - skip
            };
            let from = start + skip;
            let ghost done = out@;
            let ghost rest = shown_bytes(
                patch@,
                entry.ranges@,
                i as int + 1,
                0,
                remaining - count,
            );
            let mut k: u64 = 0;
            assert(done + patch_part(patch@, from as int, 0) =~= done);
            while k < count && from + k < patch.len() as u64
                invariant
                    k <= count,
                    from + count <= u64::MAX,
                    out@ == done + patch_part(patch@, from as int, k as int),
                    k > 0 ==> from + k <= patch@.len(),
                decreases count - k,
            {
                let at = (from + k) as usize;
                out.push(patch[at]);
                assert(done + patch_part(patch@, from as int, k as int + 1) =~= (done + patch_part(
                    patch@,
                    from as int,
                    k as int,
                )).push(patch@[at as int]));
                k += 1;
            }
            assert(patch_part(patch@, from as int, k as int) =~= patch_part(
                patch@,
                from as int,
                count as int,
            ));
            assert(patch_part(patch@, from as int, count as int).len() <= count);
            assert(done + (patch_part(patch@, from as int, count as int) + rest) =~= out@ + rest);
            remaining = remaining - count;
            skip = 0;
        }
        i += 1;
    }
    assert(out@ + Seq::<u8>::empty() =~= out@);
    out
}

/// What `String::from_utf8_lossy` makes of a sequence of bytes.
pub uninterp spec fn lossy_text(bytes: Seq<u8>) -> Seq<char>;

/// `String::from_utf8_lossy`: the text of the bytes, with what is not UTF-8 replaced. The result is
/// named; how the replacements fall is not restated.
#[verifier::external_body]
pub(crate) fn lossy(bytes: &Vec<u8>) -> (r: String)
    ensures
        r@ == lossy_text(bytes@),
{
    String::from_utf8_lossy(bytes).into_owned()
}

/// A part of a change as it is shown.
#[derive(Debug, Clone, PartialEq, Eq)]
pub struct Preview {
    pub text: String,
    pub next_offset: u64,
    pub truncated: bool,
}

/// Whether a change is of a size that can be shown: no offset in it overflows.
pub open spec fn can_be_shown(entry: ChangeEntry) -> bool {
    &&& entry.bytes <= u64::MAX - MAX_PREVIEW
    &&& forall|i: int|
        0 <= i < entry.ranges@.len() ==> (#[trigger] entry.ranges@[i]).0 + entry.ranges@[i].1
            <= u64::MAX
}

/// Whether a preview shows the part of a change from `offset` on.
pub open spec fn shows(
    r: Preview,
    entry: ChangeEntry,
    patch: Seq<u8>,
    offset: u64,
    budget: usize,
) -> bool {
    let from = if offset < entry.bytes {
        offset as int
    } else {
        entry.bytes as int
    };
    let bytes = shown_bytes(patch, entry.ranges@, 0, from, preview_budget(budget));
    &&& r.text@ == lossy_text(bytes)
    &&& r.next_offset == from + bytes.len()
    &&& r.truncated == (from + bytes.len() < entry.bytes)
}

/// Shows a part of a change from `offset` on.
pub fn preview(entry: &ChangeEntry, patch: &Vec<u8>, offset: u64, budget: usize) -> (r: Preview)
    requires
        can_be_shown(*entry),
    ensures
        shows(r, *entry, patch@, offset, budget),
{
    let from = if offset < entry.bytes {
        offset
    } else {
        entry.bytes
    };
    let bytes = preview_bytes(entry, patch, offset, budget);
    let next_offset = from + bytes.len() as u64;
    Preview { text: lossy(&bytes), next_offset, truncated: next_offset < entry.bytes }
}

/// Shows a part of the selected change from `offset` on.
pub fn preview_at(
    entries: &Vec<ChangeEntry>,
    index: usize,
    patch: &Vec<u8>,
    offset: u64,
    budget: usize,
) -> (r: Result<Preview, String>)
    requires
        index < entries@.len() ==> can_be_shown(entries@[index as int]),
    ensures
        if index < entries@.len() {
            r matches Ok(p) && shows(p, entries@[index as int], patch@, offset, budget)
        } else {
            r matches Err(e) && e@ == "no selected change"@
        },
{
    if index < entries.len() {
        Ok(preview(&entries[index], patch, offset, budget))
    } else {
        Err("no selected change".to_owned())
    }
}

/// Whether the copies that a viewer was given have been edited.
#[derive(Debug, Clone, Copy, PartialEq, Eq, Structural)]
pub struct ReviewIntegrity {
    pub copies_changed: bool,
}

/// A hash that was recorded, and the one that is found now, if any can be taken.
#[derive(Debug, Clone, PartialEq, Eq)]
pub struct HashCheck {
    pub expected: String,
    pub actual: Option<String>,
}

/// Whether what is found is what was recorded.
pub open spec fn unchanged(check: HashCheck) -> bool {
    optional_view(check.actual) == Some(check.expected@)
}

/// Whether the evidence of a review is intact; the copies made for viewers may have been edited.
pub fn verify_review(evidence: &Vec<HashCheck>, copies: &Vec<HashCheck>) -> (r: Result<
    ReviewIntegrity,
    String,
>)
    ensures
        if forall|i: int| 0 <= i < evidence@.len() ==> unchanged(#[trigger] evidence@[i]) {
            r matches Ok(integrity) && integrity.copies_changed == (exists|i: int|
                0 <= i < copies@.len() && !unchanged(#[trigger] copies@[i]))
        } else {
            r matches Err(e) && e@
                == "immutable review evidence changed; close this review and do not apply it"@
        },
{
    let mut i: usize = 0;
    while i < evidence.len()
        invariant
            i <= evidence.len(),
            forall|k: int| 0 <= k < i ==> unchanged(#[trigger] evidence@[k]),
        decreases evidence.len() - i,
    {
        if !same_optional(&evidence[i].actual, Some(evidence[i].expected.as_str())) {
            assert(!unchanged(evidence@[i as int]));
            return Err(
                "immutable review evidence changed; close this review and do not apply it".to_owned(),
            );
        }
        i += 1;
    }
    let mut copies_changed = false;
    let mut k: usize = 0;
    while k < copies.len()
        invariant
            k <= copies.len(),
            copies_changed == (exists|j: int| 0 <= j < k && !unchanged(#[trigger] copies@[j])),
        decreases copies.len() - k,
    {
        if !same_optional(&copies[k].actual, Some(copies[k].expected.as_str())) {
            copies_changed = true;
            assert(!unchanged(copies@[k as int]));
        }
        k += 1;
    }
    Ok(ReviewIntegrity { copies_changed })
}

/// A byte with ASCII capitals made small.
pub open spec fn small_byte(b: u8) -> u8 {
    if 65 <= b <= 90 {
        (b + 32) as u8
    } else {
        b
    }
}

/// Bytes with ASCII capitals made small.
pub open spec fn small_bytes(b: Seq<u8>) -> Seq<u8> {
    Seq::new(b.len(), |i: int| small_byte(b[i]))
}

fn lower_bytes(b: &Vec<u8>) -> (r: Vec<u8>)
    ensures
        r@ == small_bytes(b@),
{
    let mut out: Vec<u8> = Vec::new();
    let mut i: usize = 0;
    while i < b.len()
        invariant
            i <= b.len(),
            out@.len() == i,
            forall|k: int| 0 <= k < i ==> out@[k] == small_byte(b@[k]),
        decreases b.len() - i,
    {
        let x = b[i];
        out.push(if x >= 65 && x <= 90 {
            x + 32
        } else {
            x
        });
        i += 1;
    }
    assert(out@ =~= small_bytes(b@));
    out
}

/// Whether a name, in small letters, stands for credentials or for the configuration of a tool.
pub open spec fn is_sensitive(name: Seq<u8>) -> bool {
    ||| name == utf8(".git"@)
    ||| name == utf8(".dispatch"@)
    ||| name == utf8(".ssh"@)
    ||| name == utf8(".aws"@)
    ||| name == utf8(".azure"@)
    ||| name == utf8(".codex"@)
    ||| name == utf8(".npmrc"@)
    ||| name == utf8(".netrc"@)
    ||| name == utf8("credentials"@)
    ||| name == utf8("credentials.json"@)
    ||| name == utf8("auth.json"@)
    ||| name == utf8("id_rsa"@)
    ||| name == utf8("id_ed25519"@)
    ||| name == utf8(".env"@)
    ||| starts(name, utf8(".env."@))
}

/// Whether a path leads to credentials or to the configuration of a tool.
pub open spec fn leads_to_secrets(path: Seq<u8>) -> bool {
    exists|i: int|
        0 <= i < path_components(path).len() && is_sensitive(
            small_bytes(#[trigger] path_components(path)[i]),
        )
}

/// Whether a path leads to credentials or to the configuration of a tool.
pub fn sensitive_path(path: &Vec<u8>) -> (r: bool)
    ensures
        r == leads_to_secrets(path@),
{
    let parts = path_parts(path);
    let ghost all = contents(parts@);
    let mut i: usize = 0;
    while i < parts.len()
        invariant
            i <= parts.len(),
            all == contents(parts@),
            all == path_components(path@),
            forall|k: int| 0 <= k < i ==> !is_sensitive(small_bytes(#[trigger] all[k])),
        decreases parts.len() - i,
    {
        assert(all[i as int] == parts@[i as int]@);
        let name = lower_bytes(&parts[i]);
        if is_text(&name, ".git") || is_text(&name, ".dispatch") || is_text(&name, ".ssh")
            || is_text(&name, ".aws") || is_text(&name, ".azure") || is_text(&name, ".codex")
            || is_text(&name, ".npmrc") || is_text(&name, ".netrc") || is_text(&name, "credentials")
            || is_text(&name, "credentials.json") || is_text(&name, "auth.json") || is_text(
            &name,
            "id_rsa",
        ) || is_text(&name, "id_ed25519") || is_text(&name, ".env") || begins(&name, ".env.") {
            assert(is_sensitive(small_bytes(all[i as int])));
            return true;
        }
        i += 1;
    }
    false
}

/// Whether an entry touches credentials or the configuration of a tool.
pub open spec fn touches_secrets(e: Entry) -> bool {
    leads_to_secrets(e.path) || (e.previous matches Some(previous) && leads_to_secrets(previous))
}

/// Whether a change set may be handed to a viewer outside: not when it touches credentials or the
/// configuration of a tool.
pub fn may_leave(entries: &Vec<ChangeEntry>) -> (r: Result<(), String>)
    ensures
        if exists|i: int| 0 <= i < entries@.len() && touches_secrets(#[trigger] entries@[i]@) {
            r matches Err(e) && e@
                == "this change set includes authentication or tool configuration paths; use built-in inspection"@
        } else {
            r is Ok
        },
{
    let mut i: usize = 0;
    while i < entries.len()
        invariant
            i <= entries.len(),
            forall|k: int| 0 <= k < i ==> !touches_secrets(#[trigger] entries@[k]@),
        decreases entries.len() - i,
    {
        let e = &entries[i];
        let previous = match &e.previous_path {
            Some(path) => sensitive_path(path),
            None => false,
        };
        if previous || sensitive_path(&e.path) {
            assert(touches_secrets(entries@[i as int]@));
            return Err(
                "this change set includes authentication or tool configuration paths; use built-in inspection".to_owned(),
            );
        }
        i += 1;
    }
    Ok(())
}

/// How a character is displayed: controls and characters that turn the direction as escapes.
pub open spec fn displayed_char(c: char) -> Seq<char> {
    if (is_control(c) && c != '\n' && c != '\t') || turns_direction(c) {
        seq!['\\', 'u', '{'] + hexadecimal(c as nat) + seq!['}']
    } else {
        seq![c]
    }
}

/// How a byte that is not part of UTF-8 is displayed.
pub open spec fn displayed_byte(b: u8) -> Seq<char> {
    seq!['\\', 'x', hex_char((b / 16) as nat), hex_char((b % 16) as nat)]
}

/// How bytes are displayed: character by character where they are UTF-8, byte by byte where they
/// are not.
pub open spec fn displayed(bytes: Seq<u8>) -> Seq<char>
    decreases bytes.len(),
{
    if bytes.len() == 0 {
        Seq::empty()
    } else {
        match first_char(bytes) {
            Some((c, n)) => if 1 <= n <= bytes.len() {
                displayed_char(c) + displayed(bytes.skip(n))
            } else {
                Seq::empty()
            },
            None => displayed_byte(bytes[0]) + displayed(bytes.skip(1)),
        }
    }
}

fn push_displayed(out: &mut String, c: char)
    ensures
        final(out)@ == old(out)@ + displayed_char(c),
{
    let n = c as u32;
    if (n <= 0x1f || (n >= 0x7f && n <= 0x9f)) && c != '\n' && c != '\t' || (n >= 0x202a && n
        <= 0x202e) || (n >= 0x2066 && n <= 0x2069) {
        let ghost before = out@;
        out.push('\\');
        out.push('u');
        out.push('{');
        assert(out@ =~= before + seq!['\\', 'u', '{']);
        out.push_str(hexadecimal_of(n).as_str());
        out.push('}');
        assert(out@ =~= before + displayed_char(c));
    } else {
        out.push(c);
    }
}

/// The display copy of a patch: what a viewer is shown. It is never what is applied, and no long
/// line or escape sequence is left out of it.
pub fn display_patch(bytes: &Vec<u8>) -> (r: String)
    ensures
        r@ == displayed(bytes@),
{
    let mut out = String::new();
    let mut i: usize = 0;
    assert(bytes@.skip(0) =~= bytes@);
    assert(Seq::<char>::empty() + displayed(bytes@) =~= displayed(bytes@));
    while i < bytes.len()
        invariant
            i <= bytes.len(),
            displayed(bytes@) == out@ + displayed(bytes@.skip(i as int)),
        decreases bytes.len() - i,
    {
        let ghost done = out@;
        let ghost rest = bytes@.skip(i as int);
        match char_at(bytes, i) {
            Some((c, n)) => {
                push_displayed(&mut out, c);
                assert(rest.skip(n as int) =~= bytes@.skip(i + n));
                assert(done + (displayed_char(c) + displayed(bytes@.skip(i + n))) =~= out@
                    + displayed(bytes@.skip(i + n)));
                i += n;
            },
            None => {
                let b = bytes[i];
                assert(rest[0] == b);
                out.push('\\');
                out.push('x');
                out.push(hex_char_of(b / 16));
                out.push(hex_char_of(b % 16));
                assert(out@ =~= done + displayed_byte(b));
                assert(rest.skip(1) =~= bytes@.skip(i + 1));
                assert(done + (displayed_byte(b) + displayed(bytes@.skip(i + 1))) =~= out@
                    + displayed(bytes@.skip(i + 1)));
                i += 1;
            },
        }
    }
    assert(out@ + Seq::<char>::empty() =~= out@);
    out
}

/// Whether a character may stand in displayed text.
pub open spec fn is_displayable(c: char) -> bool {
    (!is_control(c) || c == '\n' || c == '\t') && !turns_direction(c)
}

proof fn digits_are_displayable(n: nat)
    ensures
        forall|i: int| 0 <= i < hexadecimal(n).len() ==> is_displayable(#[trigger] hexadecimal(n)[i]),
    decreases n,
{
    if n >= 16 {
        digits_are_displayable(n / 16);
        let head = hexadecimal(n / 16);
        let all = hexadecimal(n);
        assert forall|i: int| 0 <= i < all.len() implies is_displayable(#[trigger] all[i]) by {
            if i < head.len() {
                assert(all[i] == head[i]);
            }
        }
    }
}

/// Displayed text holds no control character but newline and tab, and nothing that turns the
/// direction of the text around it.
pub proof fn display_cannot_control_the_terminal(bytes: Seq<u8>, i: int)
    requires
        0 <= i < displayed(bytes).len(),
    ensures
        is_displayable(displayed(bytes)[i]),
    decreases bytes.len(),
{
    if bytes.len() > 0 {
        let (head, rest) = match first_char(bytes) {
            Some((c, n)) => (displayed_char(c), bytes.skip(n)),
            None => (displayed_byte(bytes[0]), bytes.skip(1)),
        };
        if i < head.len() {
            assert(displayed(bytes)[i] == head[i]);
            if let Some((c, n)) = first_char(bytes) {
                let digits = hexadecimal(c as nat);
                digits_are_displayable(c as nat);
                if head.len() > 1 && 3 <= i < 3 + digits.len() {
                    assert(head[i] == digits[i - 3]);
                }
            }
        } else {
            assert(displayed(bytes)[i] == displayed(rest)[i - head.len()]);
            display_cannot_control_the_terminal(rest, i - head.len());
        }
    }
}

#[derive(Debug, Clone, Copy, PartialEq, Eq, Structural)]
pub enum ReviewerKind {
    Pager,
    Delta,
    Code,
    Nvim,
    Editor,
}

#[derive(Debug, Clone, Copy, PartialEq, Eq, Structural)]
pub enum WaitMode {
    Process,
    ExplicitReturn,
}

impl Default for WaitMode {
    fn default() -> (r: Self)
        ensures
            r == WaitMode::ExplicitReturn,
    {
        WaitMode::ExplicitReturn
    }
}

/// Trusted local user preference; arguments are never interpreted by a shell.
#[derive(Debug, Clone, PartialEq, Eq)]
pub struct ReviewerPreference {
    pub kind: ReviewerKind,
    pub executable: Option<String>,
    pub args: Vec<String>,
    pub wait: WaitMode,
}

/// What a viewer is given.
#[derive(Debug, Clone, Copy, PartialEq, Eq, Structural)]
pub enum ReviewInput {
    /// The display copy of the patch, as the last argument.
    PatchArgument,
    /// The display copy of the patch, on standard input.
    PatchOnStdin,
    /// The file before and after the change, as the last two arguments.
    Pair,
}

/// How a viewer is started: its arguments, what it is given and when it is done.
#[derive(Debug, Clone, PartialEq, Eq)]
pub struct ReviewLaunch {
    pub args: Vec<String>,
    pub input: ReviewInput,
    pub wait: WaitMode,
    pub terminal: bool,
    pub warning: String,
}

/// What `shell_words::split` makes of a text: the words, or nothing where a quote is left open.
pub uninterp spec fn shell_words(text: Seq<char>) -> Option<Seq<Seq<char>>>;

/// `shell_words::split`: the words of a command line with quotes removed and nothing expanded, or
/// nothing where a quote is not closed. The result is named; the quoting rules are not restated.
#[verifier::external_body]
fn split_shell_words(text: &str) -> (r: Option<Vec<String>>)
    ensures
        match r {
            Some(words) => shell_words(text@) == Some(texts(words@)),
            None => shell_words(text@) is None,
        },
{
    shell_words::split(text).ok()
}

/// The kind of viewer that an executable is, by its name.
pub open spec fn kind_of_executable(executable: Seq<char>) -> ReviewerKind {
    match file_name(executable) {
        Some(name) => if name == "code"@ || name == "code-insiders"@ {
            ReviewerKind::Code
        } else if name == "nvim"@ {
            ReviewerKind::Nvim
        } else {
            ReviewerKind::Editor
        },
        None => ReviewerKind::Editor,
    }
}

/// What an editor hint gives once it is split into words.
pub open spec fn hint_result(
    words: Option<Seq<Seq<char>>>,
    r: Result<ReviewerPreference, String>,
) -> bool {
    match words {
        None => r matches Err(e) && e@ == "editor hint is not valid quoted arguments"@,
        Some(words) => if words.len() == 0 {
            r matches Err(e) && e@ == "empty editor hint"@
        } else {
            &&& r matches Ok(p)
            &&& p.kind == kind_of_executable(words[0])
            &&& optional_view(p.executable) == Some(words[0])
            &&& texts(p.args@) == words.skip(1)
            &&& p.wait == (if p.kind == ReviewerKind::Editor {
                WaitMode::ExplicitReturn
            } else {
                WaitMode::Process
            })
        },
    }
}

impl ReviewerPreference {
    /// The pager that is used where nothing else is configured.
    pub fn pager() -> (r: Self)
        ensures
            r.kind == ReviewerKind::Pager,
            r.executable is None,
            r.args@.len() == 0,
            r.wait == WaitMode::Process,
    {
        ReviewerPreference {
            kind: ReviewerKind::Pager,
            executable: None,
            args: Vec::new(),
            wait: WaitMode::Process,
        }
    }

    /// The viewer that a Git difference tool stands for. Only known names are reused.
    pub fn from_tool(tool: &str) -> (r: Option<Self>)
        ensures
            ({
                let kind = if tool@ == "code"@ || tool@ == "vscode"@ {
                    Some(ReviewerKind::Code)
                } else if tool@ == "nvimdiff"@ || tool@ == "nvim"@ {
                    Some(ReviewerKind::Nvim)
                } else {
                    None
                };
                match kind {
                    Some(kind) => r matches Some(p) && p.kind == kind && p.executable is None
                        && p.args@.len() == 0 && p.wait == WaitMode::Process,
                    None => r is None,
                }
            }),
    {
        let kind = if same(tool, "code") || same(tool, "vscode") {
            ReviewerKind::Code
        } else if same(tool, "nvimdiff") || same(tool, "nvim") {
            ReviewerKind::Nvim
        } else {
            return None;
        };
        let mut preference = Self::pager();
        preference.kind = kind;
        Some(preference)
    }

    /// The viewer that the words of an editor hint name. Unknown programs may start a window and
    /// exit, so their review ends by an explicit return.
    pub fn editor_words(words: Option<Vec<String>>) -> (r: Result<Self, String>)
        ensures
            hint_result(
                match words {
                    Some(words) => Some(texts(words@)),
                    None => None,
                },
                r,
            ),
    {
        let words = match words {
            None => {
                return Err("editor hint is not valid quoted arguments".to_owned());
            },
            Some(words) => words,
        };
        if words.len() == 0 {
            return Err("empty editor hint".to_owned());
        }
        let ghost all = texts(words@);
        let executable = words[0].clone();
        let mut args: Vec<String> = Vec::new();
        let mut i: usize = 1;
        while i < words.len()
            invariant
                1 <= i <= words.len(),
                args@ == words@.subrange(1, i as int),
            decreases words.len() - i,
        {
            args.push(words[i].clone());
            i += 1;
        }
        assert(texts(args@) =~= all.skip(1));
        let kind = match file_name_of(executable.as_str()) {
            Some(name) => if same(name.as_str(), "code") || same(name.as_str(), "code-insiders") {
                ReviewerKind::Code
            } else if same(name.as_str(), "nvim") {
                ReviewerKind::Nvim
            } else {
                ReviewerKind::Editor
            },
            None => ReviewerKind::Editor,
        };
        let wait = if kind == ReviewerKind::Editor {
            WaitMode::ExplicitReturn
        } else {
            WaitMode::Process
        };
        Ok(ReviewerPreference { kind, executable: Some(executable), args, wait })
    }

    /// The viewer that an editor hint names.
    pub fn editor_hint(hint: &str) -> (r: Result<Self, String>)
        ensures
            hint_result(shell_words(hint@), r),
    {
        Self::editor_words(split_shell_words(hint))
    }

    /// The viewer that is started in place of this one: without colour a pager stands in for delta.
    pub fn effective(&self, no_color: bool) -> (r: Option<Self>)
        ensures
            if self.kind == ReviewerKind::Delta && no_color {
                r matches Some(p) && p.kind == ReviewerKind::Pager && p.executable is None
                    && p.args@.len() == 0 && p.wait == WaitMode::Process
            } else {
                r is None
            },
    {
        if self.kind == ReviewerKind::Delta && no_color {
            Some(Self::pager())
        } else {
            None
        }
    }

    /// The program that the preference names.
    pub fn program(&self) -> (r: String)
        ensures
            r@ == (match self.executable {
                Some(executable) => executable@,
                None => match self.kind {
                    ReviewerKind::Pager => "less"@,
                    ReviewerKind::Delta => "delta"@,
                    ReviewerKind::Code => "code"@,
                    ReviewerKind::Nvim => "nvim"@,
                    ReviewerKind::Editor => ""@,
                },
            }),
    {
        match &self.executable {
            Some(executable) => executable.clone(),
            None => match self.kind {
                ReviewerKind::Pager => "less".to_owned(),
                ReviewerKind::Delta => "delta".to_owned(),
                ReviewerKind::Code => "code".to_owned(),
                ReviewerKind::Nvim => "nvim".to_owned(),
                ReviewerKind::Editor => "".to_owned(),
            },
        }
    }

    /// The arguments that a viewer of this kind gets behind the configured ones.
    pub open spec fn kind_args(self, pager: Seq<char>, light: bool) -> Seq<Seq<char>> {
        match self.kind {
            ReviewerKind::Pager => seq!["-S"@, "--"@],
            ReviewerKind::Delta => seq![
                "--no-gitconfig"@,
                "--navigate"@,
                "--paging=always"@,
                "--pager"@,
                pager,
                if light {
                    "--light"@
                } else {
                    "--dark"@
                },
            ],
            ReviewerKind::Code => seq!["--wait"@, "--diff"@],
            ReviewerKind::Nvim => seq!["-R"@, "-n"@, "-d"@, "-i"@, "NONE"@, "--"@],
            ReviewerKind::Editor => Seq::empty(),
        }
    }

    /// How the viewer is started. `name` is the name of the executable, `resolved` that of the
    /// file it leads to, `pager` the pager that delta uses; a viewer of file pairs needs a selected
    /// file.
    pub fn command(
        &self,
        name: &str,
        resolved: &str,
        pager: &str,
        selected: bool,
        light: bool,
    ) -> (r: Result<ReviewLaunch, String>)
        ensures
            if is_shell(name@) || is_shell(resolved@) {
                r matches Err(e) && e@
                    == "shell viewer commands are unsupported; configure an editor executable and literal arguments"@
            } else if (self.kind == ReviewerKind::Code || self.kind == ReviewerKind::Nvim)
                && !selected {
                r matches Err(e) && e@ == "select one file before opening this viewer"@
            } else {
                &&& r matches Ok(launch)
                &&& texts(launch.args@) == texts(self.args@) + self.kind_args(pager@, light)
                &&& launch.input == (match self.kind {
                    ReviewerKind::Delta => ReviewInput::PatchOnStdin,
                    ReviewerKind::Code | ReviewerKind::Nvim => ReviewInput::Pair,
                    _ => ReviewInput::PatchArgument,
                })
                &&& launch.wait == (if self.kind == ReviewerKind::Editor {
                    self.wait
                } else {
                    WaitMode::Process
                })
                &&& launch.terminal == (self.kind != ReviewerKind::Code)
                &&& launch.warning@ == (if self.kind == ReviewerKind::Editor {
                    "Patch-file fallback: this editor has no supported diff adapter. Close its review document, then return here. Edits to review copies are never imported."@
                } else {
                    "Read-only review copies; edits are not imported. Patch display escapes control characters."@
                })
            },
    {
        if shell_program(name) || shell_program(resolved) {
            return Err(
                "shell viewer commands are unsupported; configure an editor executable and literal arguments".to_owned(),
            );
        }
        if (self.kind == ReviewerKind::Code || self.kind == ReviewerKind::Nvim) && !selected {
            return Err("select one file before opening this viewer".to_owned());
        }
        let mut args: Vec<String> = Vec::new();
        let mut i: usize = 0;
        while i < self.args.len()
            invariant
                i <= self.args.len(),
                args@ == self.args@.take(i as int),
            decreases self.args.len() - i,
        {
            args.push(self.args[i].clone());
            i += 1;
        }
        assert(self.args@.take(self.args@.len() as int) =~= self.args@);
        match self.kind {
            ReviewerKind::Pager => {
                args.push("-S".to_owned());
                args.push("--".to_owned());
            },
            ReviewerKind::Delta => {
                args.push("--no-gitconfig".to_owned());
                args.push("--navigate".to_owned());
                args.push("--paging=always".to_owned());
                args.push("--pager".to_owned());
                args.push(pager.to_owned());
                args.push(if light {
                    "--light".to_owned()
                } else {
                    "--dark".to_owned()
                });
            },
            ReviewerKind::Code => {
                args.push("--wait".to_owned());
                args.push("--diff".to_owned());
            },
            ReviewerKind::Nvim => {
                args.push("-R".to_owned());
                args.push("-n".to_owned());
                args.push("-d".to_owned());
                args.push("-i".to_owned());
                args.push("NONE".to_owned());
                args.push("--".to_owned());
            },
            ReviewerKind::Editor => {},
        }
        assert(texts(args@) =~= texts(self.args@) + self.kind_args(pager@, light));
        let input = match self.kind {
            ReviewerKind::Delta => ReviewInput::PatchOnStdin,
            ReviewerKind::Code | ReviewerKind::Nvim => ReviewInput::Pair,
            _ => ReviewInput::PatchArgument,
        };
        let wait = if self.kind == ReviewerKind::Editor {
            self.wait
        } else {
            WaitMode::Process
        };
        let warning = if self.kind == ReviewerKind::Editor {
            "Patch-file fallback: this editor has no supported diff adapter. Close its review document, then return here. Edits to review copies are never imported.".to_owned()
        } else {
            "Read-only review copies; edits are not imported. Patch display escapes control characters.".to_owned()
        };
        Ok(ReviewLaunch { args, input, wait, terminal: self.kind != ReviewerKind::Code, warning })
    }
}

/// Whether a program, by its name in small letters, runs other commands.
pub open spec fn is_shell(name: Seq<char>) -> bool {
    let name = lower(name);
    ||| name == "sh"@
    ||| name == "bash"@
    ||| name == "zsh"@
    ||| name == "dash"@
    ||| name == "fish"@
    ||| name == "ksh"@
    ||| name == "csh"@
    ||| name == "tcsh"@
    ||| name == "env"@
    ||| name == "xargs"@
    ||| name == "cmd"@
    ||| name == "cmd.exe"@
    ||| name == "powershell"@
    ||| name == "powershell.exe"@
    ||| name == "pwsh"@
    ||| name == "pwsh.exe"@
}

fn shell_program(name: &str) -> (r: bool)
    ensures
        r == is_shell(name@),
{
    let small = lowered(name);
    let name = small.as_str();
    same(name, "sh") || same(name, "bash") || same(name, "zsh") || same(name, "dash") || same(
        name,
        "fish",
    ) || same(name, "ksh") || same(name, "csh") || same(name, "tcsh") || same(name, "env") || same(
        name,
        "xargs",
    ) || same(name, "cmd") || same(name, "cmd.exe") || same(name, "powershell") || same(
        name,
        "powershell.exe",
    ) || same(name, "pwsh") || same(name, "pwsh.exe")
}

/// Where an executable is looked for.
#[derive(Debug, Clone, Copy, PartialEq, Eq, Structural)]
pub enum ExecutablePlace {
    /// At the path itself, which is absolute.
    AtPath,
    /// In the absolute directories of the search path.
    InSearchPath,
}

/// Where a configured executable is looked for: never in the current directory.
pub fn executable_place(path: &str) -> (r: Result<ExecutablePlace, String>)
    ensures
        if path@.len() == 0 || path@[0] == '-' {
            r matches Err(e) && e@ == "invalid viewer executable"@
        } else if path@[0] == '/' {
            r == Ok::<ExecutablePlace, String>(ExecutablePlace::AtPath)
        } else if components(path@).len() == 1 {
            r == Ok::<ExecutablePlace, String>(ExecutablePlace::InSearchPath)
        } else {
            r matches Err(e) && e@ == "viewer executable must be a name or an absolute path"@
        },
{
    let chars = chars_of(path);
    if chars.len() == 0 || chars[0] == '-' {
        return Err("invalid viewer executable".to_owned());
    }
    if chars[0] == '/' {
        return Ok(ExecutablePlace::AtPath);
    }
    let parts = components_of(path);
    assert(texts(parts@).len() == parts@.len());
    if parts.len() == 1 {
        Ok(ExecutablePlace::InSearchPath)
    } else {
        Err("viewer executable must be a name or an absolute path".to_owned())
    }
}

impl ReviewerPreference {
    /// The viewer to use: the one that is configured, or else the one that a global Git setting or the
    /// environment hints at, or else a pager. Commands of a Git difference tool are never evaluated, and
    /// no setting of a project is looked at.
    pub fn discover(
        stored: Option<ReviewerPreference>,
        tool: Option<&str>,
        core_editor: Option<&str>,
        visual: Option<&str>,
        editor: Option<&str>,
    ) -> (r: Result<Self, String>)
        ensures
            match stored {
                Some(p) => r == Ok::<Self, String>(p),
                None => {
                    let known = tool matches Some(t) && (t@ == "code"@ || t@ == "vscode"@ || t@
                        == "nvimdiff"@ || t@ == "nvim"@);
                    let hint = first_hint(
                        optional_str(core_editor),
                        optional_str(visual),
                        optional_str(editor),
                    );
                    if known {
                        r matches Ok(p) && p.kind == (if tool->0@ == "code"@ || tool->0@ == "vscode"@ {
                            ReviewerKind::Code
                        } else {
                            ReviewerKind::Nvim
                        }) && p.executable is None && p.args@.len() == 0 && p.wait
                            == WaitMode::Process
                    } else {
                        match hint {
                            Some(text) => hint_result(shell_words(text), r),
                            None => r matches Ok(p) && p.kind == ReviewerKind::Pager
                                && p.executable is None && p.args@.len() == 0 && p.wait
                                == WaitMode::Process,
                        }
                    }
                },
            },
    {
        if let Some(p) = stored {
            return Ok(p);
        }
        if let Some(name) = tool {
            if let Some(p) = Self::from_tool(name) {
                return Ok(p);
            }
        }
        let hint = match core_editor {
            Some(text) => Some(text),
            None => match visual {
                Some(text) => Some(text),
                None => editor,
            },
        };
        match hint {
            Some(text) => Self::editor_hint(text),
            None => Ok(Self::pager()),
        }
    }
}

/// The first hint at an editor that there is.
pub open spec fn first_hint(
    core_editor: Option<Seq<char>>,
    visual: Option<Seq<char>>,
    editor: Option<Seq<char>>,
) -> Option<Seq<char>> {
    if core_editor is Some {
        core_editor
    } else if visual is Some {
        visual
    } else {
        editor
    }
}

/// What a path is, without following it.
#[derive(Debug, Clone, Copy, PartialEq, Eq, Structural)]
pub enum FoundKind {
    Directory,
    File,
    Symlink,
    Other,
}

/// The largest file of preferences that is read.
pub const MAX_PREFERENCE: u64 = 16_384;

/// Whether a file of preferences is read: a regular file, owned by its reader and writable by nobody
/// else, of moderate size.
pub fn trusted_preference_file(kind: FoundKind, owned: bool, mode: u32, bytes: u64) -> (r: Result<
    (),
    String,
>)
    ensures
        if kind != FoundKind::File {
            r matches Err(e) && e@ == "viewer preference must be a regular user file"@
        } else if !(owned && mode & 0o022 == 0) {
            r matches Err(e) && e@
                == "viewer preference must be owned by you and not writable by others"@
        } else if bytes > MAX_PREFERENCE {
            r matches Err(e) && e@ == "viewer preference is too large"@
        } else {
            r is Ok
        },
{
    if kind != FoundKind::File {
        return Err("viewer preference must be a regular user file".to_owned());
    }
    if !(owned && mode & 0o022 == 0) {
        return Err(
            "viewer preference must be owned by you and not writable by others".to_owned(),
        );
    }
    if bytes > MAX_PREFERENCE {
        return Err("viewer preference is too large".to_owned());
    }
    Ok(())
}

/// How a file becomes a copy that is reviewed.
#[derive(Debug, Clone, Copy, PartialEq, Eq, Structural)]
pub enum ReviewCopy {
    /// The copy is empty: the file does not exist on this side.
    Empty,
    /// The copy holds where the link points to, as text; the link is never followed.
    LinkText,
    /// The copy holds what the file holds.
    Contents,
}

/// Whether every part of a path but the last is a plain directory.
pub open spec fn through_directories(kinds: Seq<FoundKind>) -> bool {
    forall|i: int| 0 <= i < kinds.len() - 1 ==> #[trigger] kinds[i] == FoundKind::Directory
}

/// How a file becomes a copy that is reviewed, given what each part of its path is.
pub fn copy_review_file(path: &Vec<u8>, kinds: &Vec<FoundKind>, absent: bool) -> (r: Result<
    ReviewCopy,
    String,
>)
    requires
        kinds@.len() > 0,
    ensures
        match path_problem(path@) {
            Some(reason) => r matches Err(e) && e@ == reason,
            None => if absent {
                r == Ok::<ReviewCopy, String>(ReviewCopy::Empty)
            } else if !through_directories(kinds@) {
                r matches Err(e) && e@ == "review path traverses a symlink or non-directory"@
            } else if kinds@.last() == FoundKind::Symlink {
                r == Ok::<ReviewCopy, String>(ReviewCopy::LinkText)
            } else if kinds@.last() == FoundKind::File {
                r == Ok::<ReviewCopy, String>(ReviewCopy::Contents)
            } else {
                r matches Err(e) && e@
                    == "only regular files and symlink descriptions can be reviewed externally"@
            },
        },
{
    if let Err(error) = safe_path(path) {
        return Err(error);
    }
    if absent {
        return Ok(ReviewCopy::Empty);
    }
    let n = kinds.len();
    let mut i: usize = 0;
    while i < n - 1
        invariant
            i <= n - 1,
            n == kinds.len(),
            !absent,
            path_problem(path@) is None,
            forall|k: int| 0 <= k < i ==> #[trigger] kinds@[k] == FoundKind::Directory,
        decreases n - i,
    {
        if kinds[i] != FoundKind::Directory {
            assert(kinds@[i as int] != FoundKind::Directory);
            return Err("review path traverses a symlink or non-directory".to_owned());
        }
        i += 1;
    }
    match kinds[n - 1] {
        FoundKind::Symlink => Ok(ReviewCopy::LinkText),
        FoundKind::File => Ok(ReviewCopy::Contents),
        _ => Err(
            "only regular files and symlink descriptions can be reviewed externally".to_owned(),
        ),
    }
}

/// A tree that a side of a pair is read from.
#[derive(Debug, Clone, Copy, PartialEq, Eq, Structural)]
pub enum PairTree {
    /// The frozen baseline.
    Baseline,
    /// What the retained patch makes of the staged part of the baseline.
    Patched,
}

/// One side of a pair.
#[derive(Debug, Clone, PartialEq, Eq)]
pub enum Side {
    /// The file does not exist on this side: its copy is empty.
    Empty,
    /// The copy holds what stands at a path of a tree.
    Read { tree: PairTree, path: Vec<u8> },
}

/// How the pair of a selected entry is laid out: which files of the baseline are staged for the retained
/// patch, and where each side is read once the patch was applied to them. The workspace of the candidate
/// is none of the places.
#[derive(Debug, Clone, PartialEq, Eq)]
pub struct PairPlan {
    /// The directory of the pair.
    pub directory: String,
    /// The name that both copies keep.
    pub name: Vec<u8>,
    /// The paths that are copied from the baseline before the patch is applied, in order.
    pub staged: Vec<Vec<u8>>,
    pub before: Side,
    pub after: Side,
}

/// The path of an entry before its change.
pub open spec fn earlier_path(e: ChangeEntry) -> Seq<u8> {
    match e.previous_path {
        Some(p) => p@,
        None => e.path@,
    }
}

fn earlier_path_of(e: &ChangeEntry) -> (r: Vec<u8>)
    ensures
        r@ == earlier_path(*e),
{
    match &e.previous_path {
        Some(p) => copy_bytes(p),
        None => copy_bytes(&e.path),
    }
}

/// The last name of a path, if its last component is a name.
pub open spec fn last_name(path: Seq<u8>) -> Option<Seq<u8>> {
    let parts = path_components(path);
    if parts.len() == 0 || parts.last() == utf8("/"@) || parts.last() == utf8("."@) || parts.last()
        == utf8(".."@) {
        None
    } else {
        Some(parts.last())
    }
}

fn name_of(path: &Vec<u8>) -> (r: Option<Vec<u8>>)
    ensures
        match r {
            Some(name) => last_name(path@) == Some(name@),
            None => last_name(path@) is None,
        },
{
    let parts = path_parts(path);
    let n = parts.len();
    assert(contents(parts@).len() == n);
    if n == 0 {
        return None;
    }
    assert(contents(parts@).last() == parts@[n - 1]@);
    if is_text(&parts[n - 1], "/") || is_text(&parts[n - 1], ".") || is_text(&parts[n - 1], "..") {
        return None;
    }
    Some(copy_bytes(&parts[n - 1]))
}

/// The paths that the first `n` entries have in the baseline: those of all entries that were not added.
pub open spec fn baseline_paths(entries: Seq<ChangeEntry>, n: int) -> Seq<Seq<u8>>
    decreases n,
{
    if n <= 0 || n > entries.len() {
        Seq::empty()
    } else if entries[n - 1].kind == ChangeKind::Added {
        baseline_paths(entries, n - 1)
    } else {
        baseline_paths(entries, n - 1).push(earlier_path(entries[n - 1]))
    }
}

/// Whether a side is empty where the file does not exist, and read from a path of a tree where it does.
pub open spec fn reads(side: Side, absent: bool, from: PairTree, at: Seq<u8>) -> bool {
    if absent {
        side is Empty
    } else {
        side matches Side::Read { tree, path } && tree == from && path@ == at
    }
}

/// Whether a plan lays out the pair of an entry: the first side is the baseline, the second what the
/// retained patch makes of it.
pub open spec fn pairs(plan: PairPlan, entries: Seq<ChangeEntry>, index: int) -> bool {
    let e = entries[index];
    &&& plan.directory@ == "file-"@ + decimal(index as nat)
    &&& Some(plan.name@) == last_name(e.path@)
    &&& contents(plan.staged@) == baseline_paths(entries, entries.len() as int)
    &&& reads(plan.before, e.kind == ChangeKind::Added, PairTree::Baseline, earlier_path(e))
    &&& reads(plan.after, e.kind == ChangeKind::Deleted, PairTree::Patched, e.path@)
}

fn side(absent: bool, tree: PairTree, path: Vec<u8>) -> (r: Side)
    ensures
        reads(r, absent, tree, path@),
{
    if absent {
        Side::Empty
    } else {
        Side::Read { tree, path }
    }
}

/// How the pair of a selected entry is laid out; nothing, where anything of the change set must not
/// leave.
pub fn file_pair(entries: &Vec<ChangeEntry>, index: usize) -> (r: Result<PairPlan, String>)
    ensures
        if exists|i: int| 0 <= i < entries@.len() && touches_secrets(#[trigger] entries@[i]@) {
            r matches Err(e) && e@
                == "this change set includes authentication or tool configuration paths; use built-in inspection"@
        } else if index >= entries@.len() {
            r matches Err(e) && e@ == "no selected change"@
        } else if last_name(entries@[index as int].path@) is None {
            r matches Err(e) && e@ == "change has no filename"@
        } else {
            r matches Ok(plan) && pairs(plan, entries@, index as int)
        },
{
    if let Err(error) = may_leave(entries) {
        return Err(error);
    }
    if index >= entries.len() {
        return Err("no selected change".to_owned());
    }
    let e = &entries[index];
    let name = match name_of(&e.path) {
        Some(name) => name,
        None => {
            return Err("change has no filename".to_owned());
        },
    };
    let mut staged: Vec<Vec<u8>> = Vec::new();
    let mut i: usize = 0;
    assert(contents(staged@) =~= baseline_paths(entries@, 0));
    while i < entries.len()
        invariant
            i <= entries.len(),
            contents(staged@) == baseline_paths(entries@, i as int),
        decreases entries.len() - i,
    {
        if entries[i].kind != ChangeKind::Added {
            let ghost earlier = staged@;
            staged.push(earlier_path_of(&entries[i]));
            assert(contents(staged@) =~= contents(earlier).push(earlier_path(entries@[i as int])));
        }
        i += 1;
    }
    let mut directory = "file-".to_owned();
    directory.push_str(decimal_of(index as u64).as_str());
    Ok(
        PairPlan {
            directory,
            name,
            staged,
            before: side(e.kind == ChangeKind::Added, PairTree::Baseline, earlier_path_of(e)),
            after: side(e.kind == ChangeKind::Deleted, PairTree::Patched, copy_bytes(&e.path)),
        },
    )
}

/// A file of a tree: what it holds, or where it points to if it is a link.
#[derive(Debug, Clone, PartialEq, Eq)]
pub struct Held {
    pub path: Vec<u8>,
    pub bytes: Vec<u8>,
}

/// What a tree holds at a path, if it holds anything there.
pub open spec fn held_at(tree: Seq<Held>, path: Seq<u8>) -> Option<Seq<u8>>
    decreases tree.len(),
{
    if tree.len() == 0 {
        None
    } else if tree.last().path@ == path {
        Some(tree.last().bytes@)
    } else {
        held_at(tree.drop_last(), path)
    }
}

/// What a side of a pair holds, if what it is read from is there.
pub open spec fn side_bytes(side: Side, baseline: Seq<Held>, patched: Seq<Held>) -> Option<Seq<u8>> {
    match side {
        Side::Empty => Some(Seq::empty()),
        Side::Read { tree, path } => match tree {
            PairTree::Baseline => held_at(baseline, path@),
            PairTree::Patched => held_at(patched, path@),
        },
    }
}

fn find_held(tree: &Vec<Held>, path: &Vec<u8>) -> (r: Option<Vec<u8>>)
    ensures
        match r {
            Some(bytes) => held_at(tree@, path@) == Some(bytes@),
            None => held_at(tree@, path@) is None,
        },
{
    let mut i: usize = tree.len();
    assert(tree@.take(i as int) =~= tree@);
    while i > 0
        invariant
            i <= tree.len(),
            held_at(tree@, path@) == held_at(tree@.take(i as int), path@),
        decreases i,
    {
        assert(tree@.take(i as int).drop_last() =~= tree@.take(i - 1));
        assert(tree@.take(i as int).last() == tree@[i - 1]);
        if same_bytes(&tree[i - 1].path, path) {
            return Some(copy_bytes(&tree[i - 1].bytes));
        }
        i -= 1;
    }
    None
}

fn read_side(side: &Side, baseline: &Vec<Held>, patched: &Vec<Held>) -> (r: Option<Vec<u8>>)
    ensures
        match r {
            Some(bytes) => side_bytes(*side, baseline@, patched@) == Some(bytes@),
            None => side_bytes(*side, baseline@, patched@) is None,
        },
{
    match side {
        Side::Empty => {
            let empty: Vec<u8> = Vec::new();
            assert(empty@ =~= Seq::empty());
            Some(empty)
        },
        Side::Read { tree, path } => match tree {
            PairTree::Baseline => find_held(baseline, path),
            PairTree::Patched => find_held(patched, path),
        },
    }
}

/// What the two copies of a pair hold. `patched` is what the retained patch made of the staged files, or
/// nothing where it did not apply to them; then there is no pair. Where a side is read from a place that
/// holds nothing, there is none either.
pub fn pair_contents(plan: &PairPlan, baseline: &Vec<Held>, patched: Option<&Vec<Held>>) -> (r: Result<
    Option<(Vec<u8>, Vec<u8>)>,
    String,
>)
    ensures
        match patched {
            None => r matches Err(e) && e@
                == "the retained patch could not be reconstructed safely; use built-in inspection"@,
            Some(tree) => {
                let before = side_bytes(plan.before, baseline@, tree@);
                let after = side_bytes(plan.after, baseline@, tree@);
                &&& r is Ok
                &&& match r->Ok_0 {
                    Some(pair) => before == Some(pair.0@) && after == Some(pair.1@),
                    None => before is None || after is None,
                }
            },
        },
{
    let tree = match patched {
        Some(tree) => tree,
        None => {
            return Err(
                "the retained patch could not be reconstructed safely; use built-in inspection".to_owned(),
            );
        },
    };
    let before = read_side(&plan.before, baseline, tree);
    let after = read_side(&plan.after, baseline, tree);
    match (before, after) {
        (Some(b), Some(a)) => Ok(Some((b, a))),
        _ => Ok(None),
    }
}

/// A pair shows the retained patch on the frozen baseline and nothing else: its first copy is the file of
/// the baseline, empty where the change added it, and its second what the patch made of the baseline,
/// empty where the change deleted it.
pub proof fn pairs_show_the_patch_on_the_baseline(
    plan: PairPlan,
    entries: Seq<ChangeEntry>,
    index: int,
    baseline: Seq<Held>,
    patched: Seq<Held>,
)
    requires
        0 <= index < entries.len(),
        pairs(plan, entries, index),
    ensures
        side_bytes(plan.before, baseline, patched) == (if entries[index].kind == ChangeKind::Added {
            Some(Seq::empty())
        } else {
            held_at(baseline, earlier_path(entries[index]))
        }),
        side_bytes(plan.after, baseline, patched) == (if entries[index].kind == ChangeKind::Deleted {
            Some(Seq::empty())
        } else {
            held_at(patched, entries[index].path@)
        }),
        entries[index].kind != ChangeKind::Added ==> contents(plan.staged@).contains(
            earlier_path(entries[index]),
        ),
{
    if entries[index].kind != ChangeKind::Added {
        staged_path(entries, index, entries.len() as int);
    }
}

proof fn staged_path(entries: Seq<ChangeEntry>, i: int, n: int)
    requires
        0 <= i < n <= entries.len(),
        entries[i].kind != ChangeKind::Added,
    ensures
        baseline_paths(entries, n).contains(earlier_path(entries[i])),
    decreases n,
{
    let before = baseline_paths(entries, n - 1);
    if i == n - 1 {
        assert(baseline_paths(entries, n).last() == earlier_path(entries[i]));
    } else {
        staged_path(entries, i, n - 1);
        let k = choose|k: int| 0 <= k < before.len() && before[k] == earlier_path(entries[i]);
        assert(baseline_paths(entries, n)[k] == earlier_path(entries[i]));
    }
}

/// The path of a copy: below the directory of the pair, on its side, under the name of the file.
pub open spec fn copy_path(root: Seq<u8>, plan: PairPlan, side: Seq<char>) -> Seq<u8> {
    root + utf8("/"@) + utf8(plan.directory@) + utf8("/"@) + utf8(side) + utf8("/"@) + plan.name@
}

fn push_text(out: &mut Vec<u8>, text: &str)
    ensures
        final(out)@ == old(out)@ + utf8(text@),
{
    let bytes = text.as_bytes_vec();
    push_all(out, &bytes);
}

fn path_of_copy(root: &Vec<u8>, plan: &PairPlan, side: &str) -> (r: Vec<u8>)
    ensures
        r@ == copy_path(root@, *plan, side@),
{
    let mut out = copy_bytes(root);
    push_text(&mut out, "/");
    push_text(&mut out, plan.directory.as_str());
    push_text(&mut out, "/");
    push_text(&mut out, side);
    push_text(&mut out, "/");
    push_all(&mut out, &plan.name);
    out
}

/// Where the two copies of a pair stand below the root of a review.
pub fn copy_paths(root: &Vec<u8>, plan: &PairPlan) -> (r: (Vec<u8>, Vec<u8>))
    ensures
        r.0@ == copy_path(root@, *plan, "before"@),
        r.1@ == copy_path(root@, *plan, "after"@),
{
    (path_of_copy(root, plan, "before"), path_of_copy(root, plan, "after"))
}

/// Where the copy of the whole patch stands below the root of a review.
pub fn patch_path(root: &Vec<u8>) -> (r: Vec<u8>)
    ensures
        r@ == root@ + utf8("/review-only.patch"@),
{
    let mut out = copy_bytes(root);
    push_text(&mut out, "/review-only.patch");
    out
}

/// The files that a viewer is given as its last arguments: the two copies of a pair, or the patch, or none
/// where the patch comes on standard input.
pub open spec fn given_files(input: ReviewInput, root: Seq<u8>, plan: Option<PairPlan>) -> Seq<Seq<u8>> {
    match input {
        ReviewInput::PatchOnStdin => seq![],
        ReviewInput::PatchArgument => seq![root + utf8("/review-only.patch"@)],
        ReviewInput::Pair => seq![
            copy_path(root, plan->0, "before"@),
            copy_path(root, plan->0, "after"@),
        ],
    }
}

/// The last arguments of a viewer, below the root of a review.
pub fn file_arguments(input: ReviewInput, root: &Vec<u8>, plan: Option<&PairPlan>) -> (r: Vec<Vec<u8>>)
    requires
        input == ReviewInput::Pair ==> plan is Some,
    ensures
        contents(r@) == given_files(
            input,
            root@,
            match plan {
                Some(p) => Some(*p),
                None => None,
            },
        ),
{
    let mut out: Vec<Vec<u8>> = Vec::new();
    match input {
        ReviewInput::PatchOnStdin => {},
        ReviewInput::PatchArgument => {
            out.push(patch_path(root));
        },
        ReviewInput::Pair => match plan {
            Some(plan) => {
                let (before, after) = copy_paths(root, plan);
                out.push(before);
                out.push(after);
            },
            None => {},
        },
    }
    assert(contents(out@) =~= given_files(
        input,
        root@,
        match plan {
            Some(p) => Some(*p),
            None => None,
        },
    ));
    out
}

/// A viewer is given absolute paths where the root of the review is one, so no name of a file is ever
/// taken for an option.
pub proof fn given_files_are_absolute(
    input: ReviewInput,
    root: Seq<u8>,
    plan: Option<PairPlan>,
    i: int,
)
    requires
        root.len() > 0,
        root[0] == 47,
        0 <= i < given_files(input, root, plan).len(),
    ensures
        given_files(input, root, plan)[i].len() > 0,
        given_files(input, root, plan)[i][0] == 47,
{
}

/// The variables of the environment that a viewer never sees: they would let it run something else.
pub open spec fn hidden_variables() -> Seq<Seq<char>> {
    seq![
        "LESSOPEN"@,
        "LESSCLOSE"@,
        "LESS"@,
        "LESSKEY"@,
        "LESSKEYIN"@,
        "DELTA_PAGER"@,
        "BAT_PAGER"@,
        "PAGER"@,
        "GIT_PAGER"@,
        "GIT_EXTERNAL_DIFF"@,
        "GIT_CONFIG"@,
        "GIT_CONFIG_COUNT"@,
        "GIT_DIR"@,
        "GIT_WORK_TREE"@,
        "VIMINIT"@,
        "EXINIT"@,
    ]
}

/// The variables of the environment that a viewer never sees.
pub fn variables_to_hide() -> (r: Vec<String>)
    ensures
        texts(r@) == hidden_variables(),
{
    let mut out: Vec<String> = Vec::new();
    put(&mut out, "LESSOPEN");
    put(&mut out, "LESSCLOSE");
    put(&mut out, "LESS");
    put(&mut out, "LESSKEY");
    put(&mut out, "LESSKEYIN");
    put(&mut out, "DELTA_PAGER");
    put(&mut out, "BAT_PAGER");
    put(&mut out, "PAGER");
    put(&mut out, "GIT_PAGER");
    put(&mut out, "GIT_EXTERNAL_DIFF");
    put(&mut out, "GIT_CONFIG");
    put(&mut out, "GIT_CONFIG_COUNT");
    put(&mut out, "GIT_DIR");
    put(&mut out, "GIT_WORK_TREE");
    put(&mut out, "VIMINIT");
    put(&mut out, "EXINIT");
    assert(texts(out@) =~= hidden_variables());
    out
}

/// Whether the material of a review is what was delivered: the baseline is as it was frozen, and the
/// patch did not change while it was read.
pub fn check_material(baseline: &str, fingerprint: &str, patch: &str, patch_again: &str) -> (r: Result<
    (),
    String,
>)
    ensures
        if baseline@ != fingerprint@ {
            r matches Err(e) && e@ == "the frozen baseline changed; review is unavailable"@
        } else if patch_again@ != patch@ {
            r matches Err(e) && e@ == "the candidate patch changed during indexing"@
        } else {
            r is Ok
        },
{
    if !same(baseline, fingerprint) {
        return Err("the frozen baseline changed; review is unavailable".to_owned());
    }
    if !same(patch_again, patch) {
        return Err("the candidate patch changed during indexing".to_owned());
    }
    Ok(())
}

/// A file that a program may be, and whether it is there.
#[derive(Debug, Clone, PartialEq, Eq)]
pub struct Place {
    pub path: String,
    pub is_file: bool,
}

/// The first place from `i` on that is absolute and holds a file.
pub open spec fn first_place(places: Seq<Place>, i: int) -> Option<int>
    decreases places.len() - i,
{
    if i < 0 || i >= places.len() {
        None
    } else if places[i].is_file && places[i].path@.len() > 0 && places[i].path@[0] == '/' {
        Some(i)
    } else {
        first_place(places, i + 1)
    }
}

/// The program that a configured executable is: at its absolute path, or in the first absolute directory
/// of the search path that has it. `at_path` says whether there is a file at the path itself, `places`
/// lists where the search path leads to.
pub fn resolve_executable(path: &str, at_path: bool, places: &Vec<Place>) -> (r: Result<String, String>)
    ensures
        if path@.len() == 0 || path@[0] == '-' {
            r matches Err(e) && e@ == "invalid viewer executable"@
        } else if path@[0] == '/' {
            if at_path {
                r matches Ok(p) && p@ == path@
            } else {
                r matches Err(e) && e@ == "configured viewer is unavailable"@
            }
        } else if components(path@).len() != 1 {
            r matches Err(e) && e@ == "viewer executable must be a name or an absolute path"@
        } else {
            match first_place(places@, 0) {
                Some(i) => r matches Ok(p) && p@ == places@[i].path@,
                None => r matches Err(e) && e@ == "viewer "@ + path@
                    + " is unavailable; use built-in inspection"@,
            }
        },
{
    match executable_place(path) {
        Err(error) => Err(error),
        Ok(ExecutablePlace::AtPath) => {
            if at_path {
                Ok(path.to_owned())
            } else {
                Err("configured viewer is unavailable".to_owned())
            }
        },
        Ok(ExecutablePlace::InSearchPath) => {
            let mut i: usize = 0;
            while i < places.len()
                invariant
                    i <= places.len(),
                    path@.len() > 0,
                    path@[0] != '-',
                    path@[0] != '/',
                    components(path@).len() == 1,
                    first_place(places@, 0) == first_place(places@, i as int),
                decreases places.len() - i,
            {
                let chars = chars_of(places[i].path.as_str());
                if places[i].is_file && chars.len() > 0 && chars[0] == '/' {
                    return Ok(places[i].path.clone());
                }
                i += 1;
            }
            let mut text = "viewer ".to_owned();
            text.push_str(path);
            text.push_str(" is unavailable; use built-in inspection");
            Err(text)
        },
    }
}

/// No viewer is ever started from the current directory: what is found is absolute.
pub proof fn found_programs_are_absolute(places: Seq<Place>, i: int)
    requires
        0 <= i,
    ensures
        first_place(places, i) matches Some(k) ==> i <= k < places.len() && places[k].is_file
            && places[k].path@.len() > 0 && places[k].path@[0] == '/',
    decreases places.len() - i,
{
    if i < places.len() {
        found_programs_are_absolute(places, i + 1);
    }
}

} // verus!
