//! YAML values, and how one setting of a mapping is replaced while all others stay.

use vstd::prelude::*;

use crate::text::texts;

verus! {

/// A value of YAML.
#[verifier::external_type_specification]
#[verifier::external_body]
pub struct ExValue(serde_yaml::Value);

/// What a value of YAML holds, its tags included, as a text: one text for each value, and the empty one
/// for a null without a tag.
pub uninterp spec fn node(v: serde_yaml::Value) -> Seq<char>;

/// The entries of the mapping that a value is, beneath its tags, in order: whether the key is a text, the
/// key, and what stands under it. A key that is a text is given as it is, any other key by what it holds.
/// There are none where the value is no mapping.
pub uninterp spec fn mapping_entries(value: Seq<char>) -> Option<Seq<(bool, Seq<char>, Seq<char>)>>;

/// What bytes hold as YAML, or why they are none.
pub uninterp spec fn yaml_read(bytes: Seq<u8>) -> Result<Seq<char>, Seq<char>>;

/// The text that a value is written as, or why it cannot be written.
pub uninterp spec fn yaml_written(value: Seq<char>) -> Result<Seq<char>, Seq<char>>;

/// A value with another value put under a key.
pub uninterp spec fn yaml_assigned(
    value: Seq<char>,
    key: Seq<char>,
    under: Seq<char>,
) -> Seq<char>;

/// A list of texts.
pub uninterp spec fn yaml_list(texts: Seq<Seq<char>>) -> Seq<char>;

/// The entries of a value, none where it is a null or anything else that is no mapping.
pub open spec fn entries_of(value: Seq<char>) -> Seq<(bool, Seq<char>, Seq<char>)> {
    match mapping_entries(value) {
        Some(entries) => entries,
        None => Seq::empty(),
    }
}

/// Whether an entry stands under a text.
pub open spec fn is_under(entry: (bool, Seq<char>, Seq<char>), key: Seq<char>) -> bool {
    entry.0 && entry.1 == key
}

/// The first entry from `i` on under a text.
pub open spec fn entry_from(
    entries: Seq<(bool, Seq<char>, Seq<char>)>,
    key: Seq<char>,
    i: int,
) -> Option<int>
    decreases entries.len() - i,
{
    if i < 0 || i >= entries.len() {
        None
    } else if is_under(entries[i], key) {
        Some(i)
    } else {
        entry_from(entries, key, i + 1)
    }
}

/// What stands under a text, if anything does.
pub open spec fn under(entries: Seq<(bool, Seq<char>, Seq<char>)>, key: Seq<char>) -> Option<Seq<char>> {
    match entry_from(entries, key, 0) {
        Some(i) => Some(entries[i].2),
        None => None,
    }
}

/// Entries with a value put under a text: in its place where the text is a key, and at the end where it is
/// none.
pub open spec fn assigned(
    entries: Seq<(bool, Seq<char>, Seq<char>)>,
    key: Seq<char>,
    value: Seq<char>,
) -> Seq<(bool, Seq<char>, Seq<char>)> {
    match entry_from(entries, key, 0) {
        Some(i) => entries.update(i, (true, key, value)),
        None => entries.push((true, key, value)),
    }
}

/// Whether something can be put under a text of a value: it is a mapping, or a null without a tag.
pub open spec fn takes_entries(value: Seq<char>) -> bool {
    value.len() == 0 || mapping_entries(value) is Some
}

/// `serde_yaml::from_slice`: the value in the bytes, or the message of the error. Both are named; how YAML
/// is read is not restated.
#[verifier::external_body]
pub(crate) fn read(bytes: &Vec<u8>) -> (r: Result<serde_yaml::Value, String>)
    ensures
        match r {
            Ok(v) => yaml_read(bytes@) == Ok::<Seq<char>, Seq<char>>(node(v)),
            Err(e) => yaml_read(bytes@) == Err::<Seq<char>, Seq<char>>(e@),
        },
{
    serde_yaml::from_slice::<serde_yaml::Value>(bytes).map_err(|e| e.to_string())
}

/// `serde_yaml::to_string`: the text of the value, or the message of the error. Both are named; how YAML is
/// written is not restated.
#[verifier::external_body]
pub(crate) fn write_text(value: &serde_yaml::Value) -> (r: Result<String, String>)
    ensures
        match r {
            Ok(t) => yaml_written(node(*value)) == Ok::<Seq<char>, Seq<char>>(t@),
            Err(e) => yaml_written(node(*value)) == Err::<Seq<char>, Seq<char>>(e@),
        },
{
    serde_yaml::to_string(value).map_err(|e| e.to_string())
}

/// `serde_yaml::Value::default`: a null without a tag.
#[verifier::external_body]
pub(crate) fn null() -> (r: serde_yaml::Value)
    ensures
        node(r).len() == 0,
{
    serde_yaml::Value::default()
}

/// `PartialEq::eq` of `serde_yaml::Value` with `Value::Null`: whether the value is a null without a tag.
#[verifier::external_body]
pub(crate) fn is_null(value: &serde_yaml::Value) -> (r: bool)
    ensures
        r == (node(*value).len() == 0),
{
    *value == serde_yaml::Value::Null
}

/// `serde_yaml::Value::is_mapping`: whether the value is a mapping, beneath its tags.
#[verifier::external_body]
pub(crate) fn is_mapping(value: &serde_yaml::Value) -> (r: bool)
    ensures
        r == (mapping_entries(node(*value)) is Some),
{
    value.is_mapping()
}

/// `serde_yaml::Value::get` with a text: a copy of what stands under the text in a mapping, beneath its
/// tags; nothing in any other value.
#[verifier::external_body]
pub(crate) fn get(value: &serde_yaml::Value, key: &str) -> (r: Option<serde_yaml::Value>)
    ensures
        match r {
            Some(v) => under(entries_of(node(*value)), key@) == Some(node(v)),
            None => under(entries_of(node(*value)), key@) is None,
        },
{
    value.get(key).cloned()
}

/// `IndexMut::index_mut` of `serde_yaml::Value` with a text, and an assignment to what it returns: the new
/// value is put under the text, in its place where the text is a key already and else at the end. Every
/// other entry stays. A null without a tag becomes a mapping first; any other value that is no mapping
/// panics, so it is ruled out. What the whole then holds, tags included, is named.
#[verifier::external_body]
pub(crate) fn assign(value: &mut serde_yaml::Value, key: &str, new: serde_yaml::Value)
    requires
        takes_entries(node(*old(value))),
    ensures
        node(*final(value)) == yaml_assigned(node(*old(value)), key@, node(new)),
        mapping_entries(node(*final(value))) == Some(
            assigned(entries_of(node(*old(value))), key@, node(new)),
        ),
{
    value[key] = new;
}

/// `From<Vec<String>>` of `serde_yaml::Value`: the list of the texts, which is named.
#[verifier::external_body]
pub(crate) fn list(items: Vec<String>) -> (r: serde_yaml::Value)
    ensures
        node(r) == yaml_list(texts(items@)),
{
    serde_yaml::Value::from(items)
}

/// Whether something can be put under a text of a value.
pub(crate) fn can_take(value: &serde_yaml::Value) -> (r: bool)
    ensures
        r == takes_entries(node(*value)),
{
    is_null(value) || is_mapping(value)
}

proof fn first_entry(entries: Seq<(bool, Seq<char>, Seq<char>)>, key: Seq<char>, i: int)
    requires
        0 <= i <= entries.len(),
    ensures
        match entry_from(entries, key, i) {
            Some(k) => i <= k < entries.len() && is_under(entries[k], key) && forall|j: int|
                i <= j < k ==> !is_under(#[trigger] entries[j], key),
            None => forall|j: int|
                i <= j < entries.len() ==> !is_under(#[trigger] entries[j], key),
        },
    decreases entries.len() - i,
{
    if i < entries.len() && !is_under(entries[i], key) {
        first_entry(entries, key, i + 1);
    }
}

/// What is put under a text is found there, and everything else stays as it was, in its order: the entries
/// under other texts and those under keys that are no text.
pub proof fn other_entries_stay(
    entries: Seq<(bool, Seq<char>, Seq<char>)>,
    key: Seq<char>,
    value: Seq<char>,
)
    ensures
        under(assigned(entries, key, value), key) == Some(value),
        forall|other: Seq<char>|
            other != key ==> #[trigger] under(assigned(entries, key, value), other) == under(
                entries,
                other,
            ),
        forall|i: int|
            0 <= i < entries.len() && !is_under(entries[i], key) ==> #[trigger] assigned(
                entries,
                key,
                value,
            )[i] == entries[i],
        entries.len() <= assigned(entries, key, value).len() <= entries.len() + 1,
        assigned(entries, key, value).len() > entries.len() ==> is_under(
            assigned(entries, key, value).last(),
            key,
        ),
{
    let after = assigned(entries, key, value);
    first_entry(entries, key, 0);
    first_entry(after, key, 0);
    assert forall|other: Seq<char>| other != key implies #[trigger] under(after, other) == under(
        entries,
        other,
    ) by {
        first_entry(entries, other, 0);
        first_entry(after, other, 0);
        match entry_from(entries, other, 0) {
            Some(k) => {
                assert(after[k] == entries[k]);
                let f = entry_from(after, other, 0)->0;
                if f < k {
                    assert(after[f] == entries[f] || is_under(after[f], key));
                }
            },
            None => {
                if let Some(f) = entry_from(after, other, 0) {
                    assert(is_under(after[f], key) || after[f] == entries[f]);
                }
            },
        }
    }
    match entry_from(entries, key, 0) {
        Some(k) => {
            let f = entry_from(after, key, 0)->0;
            assert(is_under(after[k], key));
            if f < k {
                assert(after[f] == entries[f]);
            }
        },
        None => {
            let f = entry_from(after, key, 0)->0;
            assert(is_under(after[entries.len() as int], key));
            if f < entries.len() {
                assert(after[f] == entries[f]);
            }
        },
    }
}

} // verus!
