//! Byte handling for patches and for the paths in them.

use vstd::prelude::*;
use vstd::utf8::*;

verus! {

/// `char::from_u32` gives the character with the code point `i`, if there is one.
pub assume_specification[ char::from_u32 ](i: u32) -> (r: Option<char>)
    ensures
        match r {
            Some(c) => c as u32 == i,
            None => !is_scalar(i),
        },
;

/// The UTF-8 encoding of a text.
pub open spec fn utf8(s: Seq<char>) -> Seq<u8> {
    encode_utf8(s)
}

/// Whether `b` begins with `prefix`.
pub open spec fn starts(b: Seq<u8>, prefix: Seq<u8>) -> bool {
    prefix.len() <= b.len() && b.take(prefix.len() as int) == prefix
}

/// Whether `b` holds `needle` at `i`.
pub open spec fn found_at(b: Seq<u8>, needle: Seq<u8>, i: int) -> bool {
    0 <= i && i + needle.len() <= b.len() && b.subrange(i, i + needle.len()) == needle
}

/// Whether `b` holds the bytes of `needle` at `i`.
pub fn is_at(b: &Vec<u8>, needle: &str, i: usize) -> (r: bool)
    ensures
        r == found_at(b@, utf8(needle@), i as int),
{
    let n = needle.as_bytes();
    if i > b.len() || n.len() > b.len() - i {
        return false;
    }
    let mut k: usize = 0;
    while k < n.len()
        invariant
            k <= n.len(),
            n@ == utf8(needle@),
            i + n.len() <= b.len(),
            forall|j: int| 0 <= j < k ==> b@[i + j] == n@[j],
        decreases n.len() - k,
    {
        if b[i + k] != n[k] {
            assert(b@.subrange(i as int, i + n@.len())[k as int] != n@[k as int]);
            return false;
        }
        k += 1;
    }
    assert(b@.subrange(i as int, i + n@.len()) =~= n@);
    true
}

/// Whether `b` begins with the bytes of `prefix`.
pub fn begins(b: &Vec<u8>, prefix: &str) -> (r: bool)
    ensures
        r == starts(b@, utf8(prefix@)),
{
    let r = is_at(b, prefix, 0);
    assert(b@.subrange(0, utf8(prefix@).len() as int) =~= b@.take(utf8(prefix@).len() as int));
    r
}

/// Whether `b` is the bytes of `text`.
pub fn is_text(b: &Vec<u8>, text: &str) -> (r: bool)
    ensures
        r == (b@ == utf8(text@)),
{
    let r = b.len() == text.as_bytes().len() && begins(b, text);
    assert(b@.take(b@.len() as int) =~= b@);
    r
}

/// The bytes of `b` from `from` up to `to`.
pub fn piece(b: &Vec<u8>, from: usize, to: usize) -> (r: Vec<u8>)
    requires
        from <= to <= b.len(),
    ensures
        r@ == b@.subrange(from as int, to as int),
{
    let mut out: Vec<u8> = Vec::new();
    let mut i: usize = from;
    while i < to
        invariant
            from <= i <= to <= b.len(),
            out@ == b@.subrange(from as int, i as int),
        decreases to - i,
    {
        out.push(b[i]);
        i += 1;
    }
    out
}

/// What follows the first `n` bytes of `b`.
pub fn without(b: &Vec<u8>, n: usize) -> (r: Vec<u8>)
    requires
        n <= b.len(),
    ensures
        r@ == b@.skip(n as int),
{
    let r = piece(b, n, b.len());
    assert(b@.subrange(n as int, b@.len() as int) =~= b@.skip(n as int));
    r
}

/// Whether two sequences of bytes are the same.
pub fn same_bytes(a: &Vec<u8>, b: &Vec<u8>) -> (r: bool)
    ensures
        r == (a@ == b@),
{
    if a.len() != b.len() {
        return false;
    }
    let mut i: usize = 0;
    while i < a.len()
        invariant
            i <= a.len(),
            a.len() == b.len(),
            forall|k: int| 0 <= k < i ==> a@[k] == b@[k],
        decreases a.len() - i,
    {
        if a[i] != b[i] {
            return false;
        }
        i += 1;
    }
    assert(a@ =~= b@);
    true
}

/// A copy of a sequence of bytes.
pub fn copy_bytes(b: &Vec<u8>) -> (r: Vec<u8>)
    ensures
        r@ == b@,
{
    let r = piece(b, 0, b.len());
    assert(b@.subrange(0, b@.len() as int) =~= b@);
    r
}

/// The index of the first `needle` in `b` at or after `from`, if there is one.
pub open spec fn first_from(b: Seq<u8>, needle: Seq<u8>, from: int) -> Option<int>
    decreases b.len() + 1 - from,
{
    if from < 0 || from > b.len() {
        None
    } else if found_at(b, needle, from) {
        Some(from)
    } else {
        first_from(b, needle, from + 1)
    }
}

/// The index of the first `needle` in `b` at or after `from`, if there is one.
pub fn find_from(b: &Vec<u8>, needle: &str, from: usize) -> (r: Option<usize>)
    requires
        from <= b.len(),
    ensures
        match r {
            Some(i) => first_from(b@, utf8(needle@), from as int) == Some(i as int) && from <= i && i
                + utf8(needle@).len() <= b.len(),
            None => first_from(b@, utf8(needle@), from as int) is None,
        },
{
    let mut i: usize = from;
    while i < b.len()
        invariant
            from <= i <= b.len(),
            first_from(b@, utf8(needle@), from as int) == first_from(b@, utf8(needle@), i as int),
        decreases b.len() - i,
    {
        if is_at(b, needle, i) {
            return Some(i);
        }
        i += 1;
    }
    if is_at(b, needle, i) {
        return Some(i);
    }
    assert(first_from(b@, utf8(needle@), b@.len() as int + 1) is None);
    None
}

/// The parts of `b` between the separators: one more than there are separators.
pub open spec fn split_at_byte(b: Seq<u8>, separator: u8) -> Seq<Seq<u8>>
    decreases b.len(),
{
    if b.len() == 0 {
        seq![Seq::empty()]
    } else {
        let before = split_at_byte(b.drop_last(), separator);
        if b.last() == separator {
            before.push(Seq::empty())
        } else {
            before.drop_last().push(before.last().push(b.last()))
        }
    }
}

/// The contents of a list of byte strings.
pub open spec fn contents(v: Seq<Vec<u8>>) -> Seq<Seq<u8>> {
    Seq::new(v.len(), |i: int| v[i]@)
}

/// The parts of `b` between the separators.
pub fn split_bytes(b: &Vec<u8>, separator: u8) -> (r: Vec<Vec<u8>>)
    ensures
        contents(r@) == split_at_byte(b@, separator),
{
    let mut done: Vec<Vec<u8>> = Vec::new();
    let mut current: Vec<u8> = Vec::new();
    let mut i: usize = 0;
    assert(contents(done@).push(current@) =~= seq![Seq::empty()]);
    while i < b.len()
        invariant
            i <= b.len(),
            contents(done@).push(current@) == split_at_byte(b@.take(i as int), separator),
        decreases b.len() - i,
    {
        let ghost earlier = done@;
        let ghost part = current@;
        proof {
            assert(b@.take(i as int + 1).drop_last() =~= b@.take(i as int));
            assert(contents(earlier).push(part).drop_last() =~= contents(earlier));
        }
        if b[i] == separator {
            done.push(current);
            current = Vec::new();
            assert(contents(done@) =~= contents(earlier).push(part));
        } else {
            current.push(b[i]);
        }
        i += 1;
    }
    assert(b@.take(b@.len() as int) =~= b@);
    let ghost earlier = done@;
    let ghost part = current@;
    done.push(current);
    assert(contents(done@) =~= contents(earlier).push(part));
    done
}

/// The names in a path: empty parts are dropped, and `.` anywhere but at the beginning.
pub open spec fn path_names(parts: Seq<Seq<u8>>) -> Seq<Seq<u8>>
    decreases parts.len(),
{
    if parts.len() == 0 {
        Seq::empty()
    } else {
        let earlier = path_names(parts.drop_last());
        let last = parts.last();
        if last.len() == 0 || (last == utf8("."@) && parts.len() > 1) {
            earlier
        } else {
            earlier.push(last)
        }
    }
}

/// The components of a path: `/` for the root, then its names.
pub open spec fn path_components(path: Seq<u8>) -> Seq<Seq<u8>> {
    if path.len() > 0 && path[0] == 47 {
        seq![utf8("/"@)] + path_names(split_at_byte(path, 47))
    } else {
        path_names(split_at_byte(path, 47))
    }
}

/// The components of a path.
pub fn path_parts(path: &Vec<u8>) -> (r: Vec<Vec<u8>>)
    ensures
        contents(r@) == path_components(path@),
{
    let parts = split_bytes(path, 47);
    let mut out: Vec<Vec<u8>> = Vec::new();
    let ghost root: Seq<Seq<u8>> = if path@.len() > 0 && path@[0] == 47 {
        seq![utf8("/"@)]
    } else {
        Seq::empty()
    };
    if path.len() > 0 && path[0] == 47 {
        out.push("/".as_bytes_vec());
    }
    assert(contents(out@) =~= root);
    let mut i: usize = 0;
    assert(root + path_names(contents(parts@).take(0)) =~= root);
    while i < parts.len()
        invariant
            i <= parts.len(),
            contents(out@) == root + path_names(contents(parts@).take(i as int)),
        decreases parts.len() - i,
    {
        let ghost earlier = out@;
        let ghost all = contents(parts@);
        assert(all.take(i as int + 1).drop_last() =~= all.take(i as int));
        assert(all.take(i as int + 1).last() == parts@[i as int]@);
        if parts[i].len() == 0 || (i > 0 && is_text(&parts[i], ".")) {
        } else {
            out.push(copy_bytes(&parts[i]));
            assert(contents(out@) =~= contents(earlier).push(parts@[i as int]@));
            assert(contents(earlier).push(parts@[i as int]@) =~= root + path_names(
                all.take(i as int),
            ).push(parts@[i as int]@));
        }
        i += 1;
    }
    assert(contents(parts@).take(parts@.len() as int) =~= contents(parts@));
    assert(root.len() == 0 ==> root + path_names(contents(parts@)) =~= path_names(contents(parts@)));
    out
}

/// Components joined by `/`.
pub open spec fn join_path(parts: Seq<Seq<u8>>) -> Seq<u8>
    decreases parts.len(),
{
    if parts.len() == 0 {
        Seq::empty()
    } else if parts.len() == 1 {
        parts[0]
    } else {
        join_path(parts.drop_last()) + utf8("/"@) + parts.last()
    }
}

/// Joins the components from `from` on by `/`.
pub fn joined_path(parts: &Vec<Vec<u8>>, from: usize) -> (r: Vec<u8>)
    requires
        from <= parts.len(),
    ensures
        r@ == join_path(contents(parts@).skip(from as int)),
{
    let mut out: Vec<u8> = Vec::new();
    let ghost all = contents(parts@).skip(from as int);
    let mut i: usize = from;
    while i < parts.len()
        invariant
            from <= i <= parts.len(),
            all == contents(parts@).skip(from as int),
            out@ == join_path(all.take(i - from)),
        decreases parts.len() - i,
    {
        assert(all.take(i - from + 1).drop_last() =~= all.take(i - from));
        assert(all.take(i - from + 1).last() == parts@[i as int]@);
        if i > from {
            push_all(&mut out, &"/".as_bytes_vec());
        }
        push_all(&mut out, &parts[i]);
        assert(out@ =~= join_path(all.take(i - from + 1)));
        i += 1;
    }
    assert(all.take(all.len() as int) =~= all);
    out
}

/// Appends the bytes of `more`.
pub fn push_all(out: &mut Vec<u8>, more: &Vec<u8>)
    ensures
        final(out)@ == old(out)@ + more@,
{
    let mut i: usize = 0;
    let ghost before = out@;
    assert(before + more@.take(0) =~= before);
    while i < more.len()
        invariant
            i <= more.len(),
            out@ == before + more@.take(i as int),
        decreases more.len() - i,
    {
        out.push(more[i]);
        assert(before + more@.take(i as int + 1) =~= (before + more@.take(i as int)).push(
            more@[i as int],
        ));
        i += 1;
    }
    assert(more@.take(more@.len() as int) =~= more@);
}

/// The character that a UTF-8 sequence at the beginning of `b` stands for, and its length.
pub open spec fn first_char(b: Seq<u8>) -> Option<(char, int)> {
    if b.len() > 0 && valid_first_scalar(b) {
        Some((decode_first_scalar(b) as char, length_of_first_scalar(b)))
    } else {
        None
    }
}

/// The character that a UTF-8 sequence at `at` stands for, and the length of the sequence, if
/// there is a well-formed one.
pub fn char_at(b: &Vec<u8>, at: usize) -> (r: Option<(char, usize)>)
    requires
        at < b.len(),
    ensures
        match r {
            Some((c, n)) => first_char(b@.skip(at as int)) == Some((c, n as int)) && 1 <= n <= 4 && at
                + n <= b.len(),
            None => first_char(b@.skip(at as int)) is None,
        },
{
    let ghost rest = b@.skip(at as int);
    let left = b.len() - at;
    let b1 = b[at];
    assert(rest[0] == b1);
    let (code, n): (u32, usize) = if b1 <= 0x7f {
        assert(codepoint_width_1(b1) == b1 as u32) by {
            assert((b1 & 0x7f) == b1) by (bit_vector)
                requires
                    b1 <= 0x7f,
            ;
        }
        (b1 as u32, 1)
    } else if b1 >= 0xc0 && b1 <= 0xdf {
        if left < 2 {
            return None;
        }
        let b2 = b[at + 1];
        assert(rest[1] == b2);
        if b2 < 0x80 || b2 > 0xbf {
            return None;
        }
        (((b1 & 0x1f) as u32) << 6 | ((b2 & 0x3f) as u32), 2)
    } else if b1 >= 0xe0 && b1 <= 0xef {
        if left < 3 {
            return None;
        }
        let b2 = b[at + 1];
        let b3 = b[at + 2];
        assert(rest[1] == b2);
        assert(rest[2] == b3);
        if b2 < 0x80 || b2 > 0xbf || b3 < 0x80 || b3 > 0xbf {
            return None;
        }
        (((b1 & 0x0f) as u32) << 12 | ((b2 & 0x3f) as u32) << 6 | ((b3 & 0x3f) as u32), 3)
    } else if b1 >= 0xf0 && b1 <= 0xf7 {
        if left < 4 {
            return None;
        }
        let b2 = b[at + 1];
        let b3 = b[at + 2];
        let b4 = b[at + 3];
        assert(rest[1] == b2);
        assert(rest[2] == b3);
        assert(rest[3] == b4);
        if b2 < 0x80 || b2 > 0xbf || b3 < 0x80 || b3 > 0xbf || b4 < 0x80 || b4 > 0xbf {
            return None;
        }
        (
            ((b1 & 0x07) as u32) << 18 | ((b2 & 0x3f) as u32) << 12 | ((b3 & 0x3f) as u32) << 6 | ((b4
                & 0x3f) as u32),
            4,
        )
    } else {
        return None;
    };
    assert(valid_leading_and_continuation_bytes_first_codepoint(rest));
    assert(decode_first_codepoint(rest) == code);
    assert(length_of_first_codepoint(rest) == n);
    if (n == 2 && code < 0x80) || (n == 3 && code < 0x800) || (n == 4 && (code < 0x10000 || code
        > 0x10ffff)) {
        return None;
    }
    if code >= 0xd800 && code <= 0xdfff {
        return None;
    }
    match char::from_u32(code) {
        Some(c) => {
            proof {
                char_u32_cast(c, code);
            }
            Some((c, n))
        },
        None => {
            proof {
                if n == 1 {
                } else if n == 2 {
                    assert(code <= 0x7ff) by {
                        let b2 = rest[1];
                        assert((((b1 & 0x1f) as u32) << 6 | ((b2 & 0x3f) as u32)) <= 0x7ff) by (bit_vector);
                    }
                } else if n == 3 {
                    assert(code <= 0xffff) by {
                        let b2 = rest[1];
                        let b3 = rest[2];
                        assert((((b1 & 0x0f) as u32) << 12 | ((b2 & 0x3f) as u32) << 6 | ((b3 & 0x3f) as u32))
                            <= 0xffff) by (bit_vector);
                    }
                }
                assert(is_scalar(code));
            }
            None
        },
    }
}

/// Whether `b` is well-formed UTF-8.
pub fn is_utf8(b: &Vec<u8>) -> (r: bool)
    ensures
        r == valid_utf8(b@),
{
    let mut i: usize = 0;
    assert(b@.skip(0) =~= b@);
    while i < b.len()
        invariant
            i <= b.len(),
            valid_utf8(b@) == valid_utf8(b@.skip(i as int)),
        decreases b.len() - i,
    {
        let ghost rest = b@.skip(i as int);
        match char_at(b, i) {
            None => {
                return false;
            },
            Some((_, n)) => {
                assert(pop_first_scalar(rest) =~= b@.skip(i + n));
                i += n;
            },
        }
    }
    true
}

} // verus!
