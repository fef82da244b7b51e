//! What a review shows as a move: a deletion and an addition of the same contents, and nothing else.

use vstd::prelude::*;

use crate::reviewer::{
    last_with_blob, moved, moves_away, moves_in, moving_away, moving_away_names_deletions, paired_from,
    unpaired, with_moves, ChangeKind, Entry,
};

verus! {

/// Whether an entry is the addition at `j` joined with the deletion at `d` of the same contents, as one
/// renamed file that keeps both records.
pub open spec fn joins(entries: Seq<Entry>, e: Entry, j: int, d: int) -> bool {
    &&& 0 <= j < entries.len() && 0 <= d < entries.len()
    &&& entries[j].kind == ChangeKind::Added && entries[j].regular
    &&& entries[d].kind == ChangeKind::Deleted && entries[d].regular
    &&& entries[j].blob is Some && entries[d].blob == entries[j].blob
    &&& e.kind == ChangeKind::Renamed
    &&& e.path == entries[j].path
    &&& e.previous == Some(entries[d].path)
    &&& e.ranges == entries[d].ranges + entries[j].ranges
    &&& e.binary == entries[j].binary
    &&& e.permission_change == entries[j].permission_change
    &&& e.additions == (if e.binary {
        None
    } else {
        Some(0u64)
    })
    &&& e.deletions == e.additions
    &&& e.hunks.len() == entries[d].hunks.len() + entries[j].hunks.len()
}

/// Whether a list holds each deletion of known contents that is not joined yet, and whether none of them has
/// the contents of an addition that was passed over.
spec fn is_pairing(
    original: Seq<Entry>,
    entries: Seq<Entry>,
    index: int,
    removed: Seq<int>,
    paired: Seq<int>,
) -> bool {
    &&& entries.len() == original.len()
    &&& 0 <= index <= entries.len()
    &&& forall|j: int| index <= j < entries.len() ==> #[trigger] entries[j] == original[j]
    &&& forall|j: int|
        0 <= j < entries.len() && moves_away(original[j]) ==> #[trigger] entries[j] == original[j]
    &&& forall|j: int|
        0 <= j < entries.len() ==> (#[trigger] entries[j]) == original[j] || exists|d: int|
            joins(original, entries[j], j, d)
    &&& forall|k: int|
        0 <= k < removed.len() ==> 0 <= #[trigger] removed[k] < entries.len() && moves_away(
            original[removed[k]],
        )
    &&& forall|k: int|
        0 <= k < paired.len() ==> 0 <= #[trigger] paired[k] < entries.len() && moves_away(
            original[paired[k]],
        )
    &&& forall|d: int|
        0 <= d < original.len() && moves_away(#[trigger] original[d]) ==> removed.contains(d)
            || paired.contains(d)
    &&& forall|j: int, k: int|
        0 <= j < index && 0 <= k < removed.len() && moves_in(#[trigger] entries[j]) ==> original[
        #[trigger] removed[k]].blob != entries[j].blob
}

proof fn last_has_the_blob(entries: Seq<Entry>, removed: Seq<int>, blob: Option<Seq<u8>>, n: int)
    requires
        0 <= n <= removed.len(),
    ensures
        ({
            let p = last_with_blob(entries, removed, blob, n);
            &&& -1 <= p < n
            &&& p >= 0 ==> entries[removed[p]].blob == blob
            &&& p < 0 ==> forall|k: int| 0 <= k < n ==> entries[#[trigger] removed[k]].blob != blob
        }),
    decreases n,
{
    if n > 0 {
        last_has_the_blob(entries, removed, blob, n - 1);
    }
}

#[verifier::rlimit(60)]
#[verifier::spinoff_prover]
proof fn one_pairing(original: Seq<Entry>, entries: Seq<Entry>, index: int, removed: Seq<int>, paired: Seq<int>, p: int)
    requires
        is_pairing(original, entries, index, removed, paired),
        index < entries.len(),
        moves_in(entries[index]),
        0 <= p < removed.len(),
        entries[removed[p]].blob == entries[index].blob,
    ensures
        is_pairing(
            original,
            entries.update(index, moved(entries[index], entries[removed[p]])),
            index + 1,
            removed.remove(p),
            paired.push(removed[p]),
        ),
{
    let old_side = removed[p];
    let shown = moved(entries[index], entries[old_side]);
    let later = entries.update(index, shown);
    let left = removed.remove(p);
    let marks = paired.push(old_side);
    assert(entries[index] == original[index]);
    assert(entries[old_side] == original[old_side]);
    assert(joins(original, shown, index, old_side));
    assert forall|j: int| 0 <= j < later.len() implies (#[trigger] later[j]) == original[j] || exists|
        d: int,
    |
        joins(original, later[j], j, d) by {
        if j == index {
            assert(joins(original, later[j], j, old_side));
        } else {
            assert(later[j] == entries[j]);
        }
    }
    assert forall|k: int| 0 <= k < left.len() implies 0 <= #[trigger] left[k] < later.len() && moves_away(
        original[left[k]],
    ) by {
        let q = if k < p {
            k
        } else {
            k + 1
        };
        assert(left[k] == removed[q]);
    }
    assert forall|k: int| 0 <= k < marks.len() implies 0 <= #[trigger] marks[k] < later.len()
        && moves_away(original[marks[k]]) by {
        if k < paired.len() {
            assert(marks[k] == paired[k]);
        }
    }
    assert forall|d: int| 0 <= d < original.len() && moves_away(#[trigger] original[d]) implies left.contains(
        d,
    ) || marks.contains(d) by {
        if removed.contains(d) {
            let k = choose|k: int| 0 <= k < removed.len() && removed[k] == d;
            if k == p {
                assert(marks[paired.len() as int] == d);
            } else if k < p {
                assert(left[k] == d);
            } else {
                assert(left[k - 1] == d);
            }
        } else {
            let k = choose|k: int| 0 <= k < paired.len() && paired[k] == d;
            assert(marks[k] == d);
        }
    }
    assert forall|j: int, k: int|
        0 <= j < index + 1 && 0 <= k < left.len() && moves_in(#[trigger] later[j]) implies original[
    #[trigger] left[k]].blob != later[j].blob by {
        let q = if k < p {
            k
        } else {
            k + 1
        };
        assert(left[k] == removed[q]);
        assert(j < index);
        assert(later[j] == entries[j]);
    }
}

proof fn pairing_all(
    original: Seq<Entry>,
    entries: Seq<Entry>,
    index: int,
    removed: Seq<int>,
    paired: Seq<int>,
) -> (left: Seq<int>)
    requires
        is_pairing(original, entries, index, removed, paired),
    ensures
        ({
            let (shown, marks) = paired_from(entries, index, removed, paired);
            is_pairing(original, shown, shown.len() as int, left, marks)
        }),
    decreases entries.len() - index,
{
    if index >= entries.len() {
        removed
    } else if !moves_in(entries[index]) {
        pairing_all(original, entries, index + 1, removed, paired)
    } else {
        let p = last_with_blob(entries, removed, entries[index].blob, removed.len() as int);
        last_has_the_blob(entries, removed, entries[index].blob, removed.len() as int);
        if p < 0 {
            assert forall|j: int, k: int|
                0 <= j < index + 1 && 0 <= k < removed.len() && moves_in(#[trigger] entries[j]) implies original[
            #[trigger] removed[k]].blob != entries[j].blob by {
                assert(entries[removed[k]] == original[removed[k]]);
            }
            pairing_all(original, entries, index + 1, removed, paired)
        } else {
            one_pairing(original, entries, index, removed, paired, p);
            pairing_all(
                original,
                entries.update(index, moved(entries[index], entries[removed[p]])),
                index + 1,
                removed.remove(p),
                paired.push(removed[p]),
            )
        }
    }
}

proof fn unpaired_holds_the_rest(entries: Seq<Entry>, paired: Seq<int>, n: int)
    requires
        0 <= n <= entries.len(),
    ensures
        forall|k: int|
            0 <= k < unpaired(entries, paired, n).len() ==> exists|j: int|
                0 <= j < n && !paired.contains(j) && (#[trigger] unpaired(entries, paired, n)[k])
                    == #[trigger] entries[j],
        forall|j: int|
            0 <= j < n && !paired.contains(j) ==> unpaired(entries, paired, n).contains(
                #[trigger] entries[j],
            ),
    decreases n,
{
    if n > 0 {
        unpaired_holds_the_rest(entries, paired, n - 1);
        let rest = unpaired(entries, paired, n - 1);
        let all = unpaired(entries, paired, n);
        if !paired.contains(n - 1) {
            assert(all.last() == entries[n - 1]);
            assert forall|k: int| 0 <= k < all.len() implies exists|j: int|
                0 <= j < n && !paired.contains(j) && (#[trigger] all[k]) == #[trigger] entries[j] by {
                if k < rest.len() {
                    assert(all[k] == rest[k]);
                    let j = choose|j: int|
                        0 <= j < n - 1 && !paired.contains(j) && rest[k] == #[trigger] entries[j];
                    assert(all[k] == entries[j]);
                } else {
                    assert(all[k] == entries[n - 1]);
                }
            }
            assert forall|j: int| 0 <= j < n && !paired.contains(j) implies all.contains(
                #[trigger] entries[j],
            ) by {
                if j < n - 1 {
                    let k = choose|k: int| 0 <= k < rest.len() && rest[k] == entries[j];
                    assert(all[k] == entries[j]);
                } else {
                    assert(all[rest.len() as int] == entries[j]);
                }
            }
        } else {
            assert forall|k: int| 0 <= k < all.len() implies exists|j: int|
                0 <= j < n && !paired.contains(j) && (#[trigger] all[k]) == #[trigger] entries[j] by {
                let j = choose|j: int|
                    0 <= j < n - 1 && !paired.contains(j) && rest[k] == #[trigger] entries[j];
                assert(all[k] == entries[j]);
            }
        }
    }
}

/// What is shown of an index: each entry as it is, or an addition joined with a deletion of the same known
/// contents. Files of different contents, or of unknown ones, are never called a move.
pub proof fn only_identical_files_move(entries: Seq<Entry>, k: int)
    requires
        0 <= k < with_moves(entries).len(),
    ensures
        ({
            let e = with_moves(entries)[k];
            ||| exists|j: int| 0 <= j < entries.len() && (#[trigger] entries[j]) == e
            ||| exists|j: int, d: int| joins(entries, e, j, d)
        }),
{
    let n = entries.len() as int;
    let removed = moving_away(entries, n);
    moving_away_names_deletions(entries, n);
    deletions_are_listed(entries, n);
    let left = pairing_all(entries, entries, 0, removed, Seq::empty());
    let (shown, marks) = paired_from(entries, 0, removed, Seq::empty());
    unpaired_holds_the_rest(shown, marks, n);
    let j = choose|j: int|
        0 <= j < n && !marks.contains(j) && with_moves(entries)[k] == #[trigger] shown[j];
    assert(shown[j] == entries[j] || exists|d: int| joins(entries, shown[j], j, d));
}

proof fn deletions_are_listed(entries: Seq<Entry>, n: int)
    requires
        0 <= n <= entries.len(),
    ensures
        forall|d: int|
            0 <= d < n && moves_away(#[trigger] entries[d]) ==> moving_away(entries, n).contains(d),
    decreases n,
{
    if n > 0 {
        deletions_are_listed(entries, n - 1);
        let earlier = moving_away(entries, n - 1);
        let all = moving_away(entries, n);
        assert forall|d: int| 0 <= d < n && moves_away(#[trigger] entries[d]) implies all.contains(d) by {
            if d < n - 1 {
                let k = choose|k: int| 0 <= k < earlier.len() && earlier[k] == d;
                assert(all[k] == d);
            } else {
                assert(all.last() == d);
            }
        }
    }
}

/// No move is missed: of what is shown, no addition and no deletion of regular files have the same known
/// contents.
pub proof fn no_move_is_missed(entries: Seq<Entry>, a: int, b: int)
    requires
        0 <= a < with_moves(entries).len(),
        0 <= b < with_moves(entries).len(),
        with_moves(entries)[a].kind == ChangeKind::Added,
        with_moves(entries)[a].regular && with_moves(entries)[a].blob is Some,
        with_moves(entries)[b].kind == ChangeKind::Deleted,
        with_moves(entries)[b].regular && with_moves(entries)[b].blob is Some,
    ensures
        with_moves(entries)[a].blob != with_moves(entries)[b].blob,
{
    let n = entries.len() as int;
    let removed = moving_away(entries, n);
    moving_away_names_deletions(entries, n);
    deletions_are_listed(entries, n);
    let left = pairing_all(entries, entries, 0, removed, Seq::empty());
    let (shown, marks) = paired_from(entries, 0, removed, Seq::empty());
    unpaired_holds_the_rest(shown, marks, n);
    let j = choose|j: int|
        0 <= j < n && !marks.contains(j) && with_moves(entries)[a] == #[trigger] shown[j];
    let d = choose|d: int|
        0 <= d < n && !marks.contains(d) && with_moves(entries)[b] == #[trigger] shown[d];
    assert(shown[d] == entries[d]);
    assert(moves_away(entries[d]));
    let k = choose|k: int| 0 <= k < left.len() && left[k] == d;
    assert(moves_in(shown[j]));
    assert(entries[left[k]].blob != shown[j].blob);
}

/// Nothing but a joined deletion leaves the list: every other entry is shown, as it is or as the new side of
/// a move.
pub proof fn every_other_file_is_shown(entries: Seq<Entry>, i: int)
    requires
        0 <= i < entries.len(),
        !(entries[i].kind == ChangeKind::Deleted && entries[i].regular && entries[i].blob is Some),
    ensures
        exists|k: int|
            0 <= k < with_moves(entries).len() && (#[trigger] with_moves(entries)[k]).path
                == entries[i].path && with_moves(entries)[k].start == entries[i].start,
{
    let n = entries.len() as int;
    let removed = moving_away(entries, n);
    moving_away_names_deletions(entries, n);
    deletions_are_listed(entries, n);
    let left = pairing_all(entries, entries, 0, removed, Seq::empty());
    places_stay(entries, 0, removed, Seq::empty());
    let (shown, marks) = paired_from(entries, 0, removed, Seq::empty());
    unpaired_holds_the_rest(shown, marks, n);
    assert(!marks.contains(i)) by {
        if marks.contains(i) {
            let k = choose|k: int| 0 <= k < marks.len() && marks[k] == i;
            assert(moves_away(entries[marks[k]]));
        }
    }
    assert(with_moves(entries).contains(shown[i]));
    let k = choose|k: int| 0 <= k < with_moves(entries).len() && with_moves(entries)[k] == shown[i];
    assert(with_moves(entries)[k].path == entries[i].path);
}

proof fn places_stay(entries: Seq<Entry>, index: int, removed: Seq<int>, paired: Seq<int>)
    requires
        0 <= index,
    ensures
        ({
            let shown = paired_from(entries, index, removed, paired).0;
            &&& shown.len() == entries.len()
            &&& forall|j: int|
                0 <= j < entries.len() ==> (#[trigger] shown[j]).path == entries[j].path
                    && shown[j].start == entries[j].start
        }),
    decreases entries.len() - index,
{
    if index < entries.len() {
        if !moves_in(entries[index]) {
            places_stay(entries, index + 1, removed, paired);
        } else {
            let p = last_with_blob(entries, removed, entries[index].blob, removed.len() as int);
            if p < 0 {
                places_stay(entries, index + 1, removed, paired);
            } else {
                let later = entries.update(index, moved(entries[index], entries[removed[p]]));
                places_stay(later, index + 1, removed.remove(p), paired.push(removed[p]));
                let shown = paired_from(
                    later,
                    index + 1,
                    removed.remove(p),
                    paired.push(removed[p]),
                ).0;
                assert forall|j: int| 0 <= j < entries.len() implies (#[trigger] shown[j]).path
                    == entries[j].path && shown[j].start == entries[j].start by {
                    assert(later[j].path == entries[j].path);
                }
            }
        }
    }
}

} // verus!
