//! A map from text to values, kept in the order of its keys.

use vstd::prelude::*;

use crate::text::{
    before, before_is_irreflexive, before_is_total, before_is_transitive, holds, holds_text, same,
    sorts_before,
};

verus! {

/// A map from text to values. Entries are added in the order of their keys, each key once.
#[derive(Debug, Clone, PartialEq, Eq)]
pub struct TextMap<V> {
    pub entries: Vec<(String, V)>,
}

/// The value of the first entry with the key `key`.
pub open spec fn lookup<V>(entries: Seq<(String, V)>, key: Seq<char>) -> Option<V>
    decreases entries.len(),
{
    if entries.len() == 0 {
        None
    } else if entries[0].0@ == key {
        Some(entries[0].1)
    } else {
        lookup(entries.drop_first(), key)
    }
}

/// Whether the keys stand in order, each once.
pub open spec fn sorted<V>(entries: Seq<(String, V)>) -> bool {
    forall|i: int, j: int|
        0 <= i < j < entries.len() ==> before((#[trigger] entries[i]).0@, (#[trigger] entries[j]).0@)
}

/// What a lookup finds stands at some index, and at no earlier one.
pub proof fn lookup_finds_the_first<V>(entries: Seq<(String, V)>, key: Seq<char>)
    ensures
        match lookup(entries, key) {
            Some(value) => exists|i: int|
                0 <= i < entries.len() && (#[trigger] entries[i]).0@ == key && entries[i].1 == value
                    && forall|j: int| 0 <= j < i ==> (#[trigger] entries[j]).0@ != key,
            None => forall|i: int| 0 <= i < entries.len() ==> (#[trigger] entries[i]).0@ != key,
        },
    decreases entries.len(),
{
    if entries.len() > 0 && entries[0].0@ != key {
        let rest = entries.drop_first();
        lookup_finds_the_first(rest, key);
        match lookup(entries, key) {
            Some(value) => {
                let i = choose|i: int|
                    0 <= i < rest.len() && (#[trigger] rest[i]).0@ == key && rest[i].1 == value
                        && forall|j: int| 0 <= j < i ==> (#[trigger] rest[j]).0@ != key;
                assert(entries[i + 1].0@ == key);
                assert forall|j: int| 0 <= j < i + 1 implies (#[trigger] entries[j]).0@ != key by {
                    if j > 0 {
                        assert(entries[j] == rest[j - 1]);
                    }
                }
            },
            None => {
                assert forall|i: int| 0 <= i < entries.len() implies (#[trigger] entries[i]).0@
                    != key by {
                    if i > 0 {
                        assert(entries[i] == rest[i - 1]);
                    }
                }
            },
        }
    }
}

/// The first entry with a key decides what a lookup gives.
pub proof fn lookup_at<V>(entries: Seq<(String, V)>, key: Seq<char>, i: int)
    requires
        0 <= i < entries.len(),
        entries[i].0@ == key,
        forall|j: int| 0 <= j < i ==> (#[trigger] entries[j]).0@ != key,
    ensures
        lookup(entries, key) == Some(entries[i].1),
    decreases entries.len(),
{
    if i > 0 {
        assert(entries[0].0@ != key);
        let rest = entries.drop_first();
        assert forall|j: int| 0 <= j < i - 1 implies (#[trigger] rest[j]).0@ != key by {
            assert(rest[j] == entries[j + 1]);
        }
        lookup_at(rest, key, i - 1);
    }
}

/// Without an entry for a key a lookup gives nothing.
pub proof fn lookup_absent<V>(entries: Seq<(String, V)>, key: Seq<char>)
    requires
        forall|j: int| 0 <= j < entries.len() ==> (#[trigger] entries[j]).0@ != key,
    ensures
        lookup(entries, key) is None,
{
    lookup_finds_the_first(entries, key);
}

impl<V> TextMap<V> {
    /// The value under `key`.
    pub open spec fn at(&self, key: Seq<char>) -> Option<V> {
        lookup(self.entries@, key)
    }

    /// Whether the keys stand in order, each once.
    pub open spec fn in_order(&self) -> bool {
        sorted(self.entries@)
    }

    /// An empty map.
    pub fn new() -> (r: Self)
        ensures
            r.entries@.len() == 0,
            r.in_order(),
            forall|k: Seq<char>| #[trigger] r.at(k) is None,
    {
        TextMap { entries: Vec::new() }
    }

    /// The index of the first entry with the key `key`.
    pub fn position(&self, key: &str) -> (r: Option<usize>)
        ensures
            match r {
                Some(i) => {
                    &&& i < self.entries.len()
                    &&& self.entries@[i as int].0@ == key@
                    &&& self.at(key@) == Some(self.entries@[i as int].1)
                    &&& forall|j: int| 0 <= j < i ==> (#[trigger] self.entries@[j]).0@ != key@
                },
                None => {
                    &&& self.at(key@) is None
                    &&& forall|j: int|
                        0 <= j < self.entries.len() ==> (#[trigger] self.entries@[j]).0@ != key@
                },
            },
    {
        let mut i: usize = 0;
        while i < self.entries.len()
            invariant
                i <= self.entries.len(),
                forall|j: int| 0 <= j < i ==> (#[trigger] self.entries@[j]).0@ != key@,
            decreases self.entries.len() - i,
        {
            if same(self.entries[i].0.as_str(), key) {
                proof {
                    lookup_at(self.entries@, key@, i as int);
                }
                return Some(i);
            }
            i += 1;
        }
        proof {
            lookup_absent(self.entries@, key@);
        }
        None
    }

    /// The value under `key`.
    pub fn get(&self, key: &str) -> (r: Option<&V>)
        ensures
            match r {
                Some(value) => self.at(key@) == Some(*value),
                None => self.at(key@) is None,
            },
    {
        match self.position(key) {
            Some(i) => Some(&self.entries[i].1),
            None => None,
        }
    }

    /// Whether there is a value under `key`.
    pub fn contains_key(&self, key: &str) -> (r: bool)
        ensures
            r == (self.at(key@) is Some),
    {
        self.position(key).is_some()
    }

    /// Puts `value` under `key`, in place of the value that was there.
    pub fn insert(&mut self, key: String, value: V)
        ensures
            final(self).at(key@) == Some(value),
            forall|k: Seq<char>| k != key@ ==> #[trigger] final(self).at(k) == old(self).at(k),
            old(self).in_order() ==> final(self).in_order(),
            final(self).entries@.len() == old(self).entries@.len() + (if old(self).at(key@) is Some {
                0int
            } else {
                1int
            }),
    {
        let ghost earlier = self.entries@;
        match self.position(key.as_str()) {
            Some(i) => {
                let ghost name = key@;
                self.entries.set(i, (key, value));
                let ghost later = self.entries@;
                proof {
                    assert forall|j: int| 0 <= j < earlier.len() implies (#[trigger] later[j]).0@
                        == earlier[j].0@ by {}
                    lookup_at(later, name, i as int);
                    assert forall|k: Seq<char>| k != name implies lookup(later, k) == lookup(
                        earlier,
                        k,
                    ) by {
                        lookup_depends_on_the_key(earlier, later, k);
                    }
                }
            },
            None => {
                let ghost name = key@;
                let mut i: usize = 0;
                while i < self.entries.len() && sorts_before(self.entries[i].0.as_str(), key.as_str())
                    invariant
                        i <= self.entries.len(),
                        self.entries@ == earlier,
                        key@ == name,
                        forall|j: int| 0 <= j < i ==> before((#[trigger] self.entries@[j]).0@, key@),
                    decreases self.entries.len() - i,
                {
                    i += 1;
                }
                let ghost entry = (key, value);
                self.entries.insert(i, (key, value));
                let ghost later = self.entries@;
                proof {
                    assert(later =~= earlier.insert(i as int, entry));
                    assert forall|j: int| 0 <= j < i implies (#[trigger] later[j]).0@ != name by {
                        assert(later[j] == earlier[j]);
                    }
                    lookup_at(later, name, i as int);
                    assert forall|k: Seq<char>| k != name implies lookup(later, k) == lookup(
                        earlier,
                        k,
                    ) by {
                        lookup_after_insert(earlier, i as int, entry, k);
                    }
                    if sorted(earlier) {
                        insert_keeps_order(earlier, i as int, entry);
                    }
                }
            },
        }
    }
}

impl<V> TextMap<V> {
    /// Takes the value under `key` out of the map.
    pub fn remove(&mut self, key: &str) -> (r: Option<V>)
        requires
            old(self).in_order(),
        ensures
            r == old(self).at(key@),
            final(self).in_order(),
            final(self).at(key@) is None,
            forall|k: Seq<char>| k != key@ ==> #[trigger] final(self).at(k) == old(self).at(k),
            final(self).entries@.len() <= old(self).entries@.len(),
    {
        let ghost earlier = self.entries@;
        match self.position(key) {
            None => None,
            Some(i) => {
                let (_, value) = self.entries.remove(i);
                let ghost later = self.entries@;
                proof {
                    assert(later =~= earlier.remove(i as int));
                    assert forall|a: int, b: int| 0 <= a < b < later.len() implies before(
                        (#[trigger] later[a]).0@,
                        (#[trigger] later[b]).0@,
                    ) by {
                        let x = if a < i {
                            a
                        } else {
                            a + 1
                        };
                        let y = if b < i {
                            b
                        } else {
                            b + 1
                        };
                        assert(later[a] == earlier[x] && later[b] == earlier[y]);
                    }
                    assert forall|j: int| 0 <= j < later.len() implies (#[trigger] later[j]).0@ != key@ by {
                        let x = if j < i {
                            j
                        } else {
                            j + 1
                        };
                        assert(later[j] == earlier[x]);
                        before_is_irreflexive(key@);
                        if x < i {
                            assert(before(earlier[x].0@, earlier[i as int].0@));
                        } else {
                            assert(before(earlier[i as int].0@, earlier[x].0@));
                        }
                    }
                    lookup_absent(later, key@);
                    assert forall|k: Seq<char>| k != key@ implies lookup(later, k) == lookup(
                        earlier,
                        k,
                    ) by {
                        assert(earlier =~= later.insert(i as int, earlier[i as int]));
                        lookup_after_insert(later, i as int, earlier[i as int], k);
                    }
                }
                Some(value)
            },
        }
    }
}

proof fn lookup_depends_on_the_key<V>(a: Seq<(String, V)>, b: Seq<(String, V)>, key: Seq<char>)
    requires
        a.len() == b.len(),
        forall|j: int| 0 <= j < a.len() ==> (#[trigger] a[j]).0@ == b[j].0@,
        forall|j: int| 0 <= j < a.len() && (#[trigger] a[j]).0@ == key ==> a[j].1 == b[j].1,
    ensures
        lookup(a, key) == lookup(b, key),
    decreases a.len(),
{
    if a.len() > 0 {
        assert(a[0].0@ == b[0].0@);
        let x = a.drop_first();
        let y = b.drop_first();
        assert forall|j: int| 0 <= j < x.len() implies (#[trigger] x[j]).0@ == y[j].0@ by {
            assert(x[j] == a[j + 1]);
        }
        assert forall|j: int| 0 <= j < x.len() && (#[trigger] x[j]).0@ == key implies x[j].1
            == y[j].1 by {
            assert(x[j] == a[j + 1]);
        }
        lookup_depends_on_the_key(x, y, key);
    }
}

proof fn lookup_after_insert<V>(entries: Seq<(String, V)>, i: int, entry: (String, V), key: Seq<char>)
    requires
        0 <= i <= entries.len(),
        entry.0@ != key,
    ensures
        lookup(entries.insert(i, entry), key) == lookup(entries, key),
    decreases entries.len(),
{
    let later = entries.insert(i, entry);
    if i == 0 {
        assert(later.drop_first() =~= entries);
    } else {
        assert(later[0] == entries[0]);
        assert(later.drop_first() =~= entries.drop_first().insert(i - 1, entry));
        lookup_after_insert(entries.drop_first(), i - 1, entry, key);
    }
}

proof fn insert_keeps_order<V>(entries: Seq<(String, V)>, i: int, entry: (String, V))
    requires
        0 <= i <= entries.len(),
        sorted(entries),
        forall|j: int| 0 <= j < i ==> before((#[trigger] entries[j]).0@, entry.0@),
        i < entries.len() ==> !before(entries[i].0@, entry.0@),
        forall|j: int| 0 <= j < entries.len() ==> (#[trigger] entries[j]).0@ != entry.0@,
    ensures
        sorted(entries.insert(i, entry)),
{
    let later = entries.insert(i, entry);
    if i < entries.len() {
        before_is_total(entries[i].0@, entry.0@);
    }
    assert forall|a: int, b: int| 0 <= a < b < later.len() implies before(
        (#[trigger] later[a]).0@,
        (#[trigger] later[b]).0@,
    ) by {
        let x = if a < i {
            a
        } else {
            a - 1
        };
        let y = if b < i {
            b
        } else {
            b - 1
        };
        if a == i {
            assert(later[b] == entries[y]);
            if y > i {
                assert(before(entries[i].0@, entries[y].0@));
                before_is_transitive(entry.0@, entries[i].0@, entries[y].0@);
            }
        } else if b == i {
            assert(later[a] == entries[a]);
        } else {
            assert(later[a] == entries[x]);
            assert(later[b] == entries[y]);
        }
    }
}

impl TextMap<u64> {
    /// An exact copy.
    pub fn copied(&self) -> (r: Self)
        ensures
            r.entries@ == self.entries@,
    {
        let mut entries: Vec<(String, u64)> = Vec::new();
        let mut i: usize = 0;
        while i < self.entries.len()
            invariant
                i <= self.entries.len(),
                entries@ == self.entries@.take(i as int),
            decreases self.entries.len() - i,
        {
            entries.push((self.entries[i].0.clone(), self.entries[i].1));
            i += 1;
        }
        assert(self.entries@.take(self.entries@.len() as int) =~= self.entries@);
        TextMap { entries }
    }
}

/// Two maps in order that give the same value for every key list the same keys with the same
/// values, in the same order.
pub proof fn order_is_determined_by_contents<V>(a: TextMap<V>, b: TextMap<V>)
    requires
        a.in_order(),
        b.in_order(),
        forall|k: Seq<char>| #[trigger] a.at(k) == b.at(k),
    ensures
        a.entries@.len() == b.entries@.len(),
        forall|i: int|
            0 <= i < a.entries@.len() ==> {
                &&& (#[trigger] a.entries@[i]).0@ == b.entries@[i].0@
                &&& a.entries@[i].1 == b.entries@[i].1
            },
{
    assert forall|k: Seq<char>| #[trigger] lookup(a.entries@, k) == lookup(b.entries@, k) by {
        assert(a.at(k) == b.at(k));
    }
    same_order(a.entries@, b.entries@);
}

proof fn same_order<V>(a: Seq<(String, V)>, b: Seq<(String, V)>)
    requires
        sorted(a),
        sorted(b),
        forall|k: Seq<char>| #[trigger] lookup(a, k) == lookup(b, k),
    ensures
        a.len() == b.len(),
        forall|i: int|
            0 <= i < a.len() ==> (#[trigger] a[i]).0@ == b[i].0@ && a[i].1 == b[i].1,
    decreases a.len(),
{
    if a.len() == 0 {
        if b.len() > 0 {
            assert(lookup(b, b[0].0@) is Some);
            assert(lookup(a, b[0].0@) is None);
        }
    } else if b.len() == 0 {
        assert(lookup(a, a[0].0@) is Some);
        assert(lookup(b, a[0].0@) is None);
    } else {
        let ka = a[0].0@;
        let kb = b[0].0@;
        if ka != kb {
            assert(lookup(a, ka) is Some);
            assert(lookup(b, kb) is Some);
            lookup_finds_the_first(b, ka);
            lookup_finds_the_first(a, kb);
            let i = choose|i: int| 0 <= i < b.len() && (#[trigger] b[i]).0@ == ka;
            let j = choose|j: int| 0 <= j < a.len() && (#[trigger] a[j]).0@ == kb;
            assert(before(b[0].0@, b[i].0@));
            assert(before(a[0].0@, a[j].0@));
            before_is_transitive(ka, kb, ka);
            before_is_irreflexive(ka);
        }
        let x = a.drop_first();
        let y = b.drop_first();
        assert(lookup(a, ka) == lookup(b, ka));
        assert(sorted(x)) by {
            assert forall|i: int, j: int| 0 <= i < j < x.len() implies before(
                (#[trigger] x[i]).0@,
                (#[trigger] x[j]).0@,
            ) by {
                assert(x[i] == a[i + 1] && x[j] == a[j + 1]);
            }
        }
        assert(sorted(y)) by {
            assert forall|i: int, j: int| 0 <= i < j < y.len() implies before(
                (#[trigger] y[i]).0@,
                (#[trigger] y[j]).0@,
            ) by {
                assert(y[i] == b[i + 1] && y[j] == b[j + 1]);
            }
        }
        assert forall|k: Seq<char>| #[trigger] lookup(x, k) == lookup(y, k) by {
            if k == ka {
                assert forall|j: int| 0 <= j < x.len() implies (#[trigger] x[j]).0@ != ka by {
                    assert(x[j] == a[j + 1]);
                    assert(before(a[0].0@, a[j + 1].0@));
                    before_is_irreflexive(ka);
                }
                assert forall|j: int| 0 <= j < y.len() implies (#[trigger] y[j]).0@ != ka by {
                    assert(y[j] == b[j + 1]);
                    assert(before(b[0].0@, b[j + 1].0@));
                    before_is_irreflexive(ka);
                }
                lookup_absent(x, k);
                lookup_absent(y, k);
            } else {
                assert(lookup(a, k) == lookup(x, k));
                assert(lookup(b, k) == lookup(y, k));
            }
        }
        same_order(x, y);
        assert forall|i: int| 0 <= i < a.len() implies (#[trigger] a[i]).0@ == b[i].0@ && a[i].1
            == b[i].1 by {
            if i > 0 {
                assert(a[i] == x[i - 1]);
                assert(b[i] == y[i - 1]);
            }
        }
    }
}

impl<V> TextMap<V> {
    /// Takes everything out of the map that does not stand under one of the keys.
    pub fn retain(&mut self, keys: &Vec<String>)
        requires
            old(self).in_order(),
        ensures
            final(self).in_order(),
            forall|k: Seq<char>|
                #[trigger] final(self).at(k) == (if holds(keys@, k) {
                    old(self).at(k)
                } else {
                    None
                }),
    {
        let ghost earlier = self.entries@;
        let mut gone: Vec<String> = Vec::new();
        let mut i: usize = 0;
        while i < self.entries.len()
            invariant
                i <= self.entries.len(),
                self.entries@ == earlier,
                forall|d: int| 0 <= d < gone@.len() ==> !holds(keys@, (#[trigger] gone@[d])@),
                forall|j: int|
                    0 <= j < i && !holds(keys@, (#[trigger] earlier[j]).0@) ==> holds(
                        gone@,
                        earlier[j].0@,
                    ),
            decreases self.entries.len() - i,
        {
            let ghost before = gone@;
            if !holds_text(keys, self.entries[i].0.as_str()) {
                gone.push(self.entries[i].0.clone());
                assert(gone@[before.len() as int]@ == earlier[i as int].0@);
                assert forall|j: int|
                    0 <= j < i + 1 && !holds(keys@, (#[trigger] earlier[j]).0@) implies holds(
                    gone@,
                    earlier[j].0@,
                ) by {
                    if j < i {
                        let d = choose|d: int|
                            0 <= d < before.len() && (#[trigger] before[d])@ == earlier[j].0@;
                        assert(gone@[d]@ == earlier[j].0@);
                    }
                }
            }
            i += 1;
        }
        let mut n: usize = 0;
        assert(gone@.take(0) =~= Seq::empty());
        while n < gone.len()
            invariant
                n <= gone.len(),
                self.in_order(),
                forall|k: Seq<char>|
                    #[trigger] self.at(k) == (if holds(gone@.take(n as int), k) {
                        None
                    } else {
                        lookup(earlier, k)
                    }),
            decreases gone.len() - n,
        {
            let ghost before = *self;
            let ghost first = gone@.take(n as int);
            let ghost next = gone@.take(n as int + 1);
            let ghost name = gone@[n as int]@;
            self.remove(gone[n].as_str());
            assert forall|k: Seq<char>| #[trigger] self.at(k) == (if holds(next, k) {
                None
            } else {
                lookup(earlier, k)
            }) by {
                assert(next[n as int]@ == name);
                if k != name {
                    assert(self.at(k) == before.at(k));
                    if holds(first, k) {
                        let d = choose|d: int| 0 <= d < first.len() && (#[trigger] first[d])@ == k;
                        assert(next[d]@ == k);
                    }
                    if holds(next, k) {
                        let d = choose|d: int| 0 <= d < next.len() && (#[trigger] next[d])@ == k;
                        assert(first[d]@ == k);
                    }
                }
            }
            n += 1;
        }
        assert(gone@.take(gone@.len() as int) =~= gone@);
        assert forall|k: Seq<char>| #[trigger] self.at(k) == (if holds(keys@, k) {
            lookup(earlier, k)
        } else {
            None
        }) by {
            lookup_finds_the_first(earlier, k);
            if holds(gone@, k) {
                let d = choose|d: int| 0 <= d < gone@.len() && (#[trigger] gone@[d])@ == k;
                assert(!holds(keys@, gone@[d]@));
            } else if lookup(earlier, k) is Some {
                let j = choose|j: int| 0 <= j < earlier.len() && (#[trigger] earlier[j]).0@ == k;
                assert(earlier[j].0@ == k);
            }
        }
    }
}

} // verus!
