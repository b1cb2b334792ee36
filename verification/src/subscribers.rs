//! The set of consumers that want to hear of an entry's changes, kept in the
//! order in which they arrived.
use vstd::prelude::*;

verus! {

/// The list with `id` added at the end, unless it is already there.
pub open spec fn with_id(ids: Seq<u64>, id: u64) -> Seq<u64> {
    if ids.contains(id) {
        ids
    } else {
        ids.push(id)
    }
}

/// The list without `id`, the others in their order.
pub open spec fn without_id(ids: Seq<u64>, id: u64) -> Seq<u64> {
    ids.filter(|other: u64| other != id)
}

/// Whether `id` is in the list.
pub fn has_id(ids: &Vec<u64>, id: u64) -> (found: bool)
    ensures
        found == ids@.contains(id),
{
    let mut i: usize = 0;
    while i < ids.len()
        invariant
            i <= ids.len(),
            forall|j: int| 0 <= j < i ==> ids@[j] != id,
        decreases ids.len() - i,
    {
        if ids[i] == id {
            return true;
        }
        i += 1;
    }
    false
}

/// Adds `id` unless it is already there.
pub fn add_id(ids: &mut Vec<u64>, id: u64)
    requires
        old(ids)@.no_duplicates(),
    ensures
        final(ids)@ == with_id(old(ids)@, id),
        final(ids)@.no_duplicates(),
{
    if !has_id(ids, id) {
        ids.push(id);
    }
}

/// Takes `id` out, keeping the others in their order.
pub fn drop_id(ids: &mut Vec<u64>, id: u64)
    requires
        old(ids)@.no_duplicates(),
    ensures
        final(ids)@ == without_id(old(ids)@, id),
        final(ids)@.no_duplicates(),
{
    let mut kept: Vec<u64> = Vec::new();
    let mut i: usize = 0;
    while i < ids.len()
        invariant
            i <= ids.len(),
            ids@ == old(ids)@,
            kept@ == without_id(ids@.take(i as int), id),
        decreases ids.len() - i,
    {
        proof {
            reveal(Seq::filter);
            assert(ids@.take(i + 1).drop_last() == ids@.take(i as int));
        }
        if ids[i] != id {
            kept.push(ids[i]);
        }
        i += 1;
    }
    proof {
        assert(ids@.take(i as int) == ids@);
        lemma_without_id(ids@, id);
    }
    *ids = kept;
}

/// A copy of the list.
pub fn copy_ids(ids: &Vec<u64>) -> (copy: Vec<u64>)
    ensures
        copy@ == ids@,
{
    let mut copy: Vec<u64> = Vec::new();
    let mut i: usize = 0;
    while i < ids.len()
        invariant
            i <= ids.len(),
            copy@ == ids@.take(i as int),
        decreases ids.len() - i,
    {
        copy.push(ids[i]);
        assert(ids@.take(i + 1) == ids@.take(i as int).push(ids@[i as int]));
        i += 1;
    }
    assert(ids@.take(i as int) == ids@);
    copy
}

/// Taking an id out leaves a list without it that holds every other id it
/// held before, and no id twice if none was there twice.
pub proof fn lemma_without_id(ids: Seq<u64>, id: u64)
    ensures
        !without_id(ids, id).contains(id),
        forall|other: u64| other != id ==> without_id(ids, id).contains(other) == ids.contains(other),
        ids.no_duplicates() ==> without_id(ids, id).no_duplicates(),
        without_id(ids, id).len() <= ids.len(),
        !ids.contains(id) ==> without_id(ids, id) == ids,
    decreases ids.len(),
{
    reveal(Seq::filter);
    let keep = |other: u64| other != id;
    if ids.len() > 0 {
        let front = ids.drop_last();
        lemma_without_id(front, id);
        let last = ids.last();
        assert(ids == front.push(last));
        let whole = without_id(ids, id);
        let part = without_id(front, id);
        assert(whole == if last != id {
            part.push(last)
        } else {
            part
        });
        assert forall|other: u64| other != id implies without_id(ids, id).contains(other)
            == ids.contains(other) by {
            if ids.contains(other) {
                let k = choose|k: int| 0 <= k < ids.len() && ids[k] == other;
                if k < front.len() {
                    assert(front[k] == other);
                    assert(front.contains(other));
                    let m = choose|m: int| 0 <= m < without_id(front, id).len() && without_id(front, id)[m] == other;
                    assert(without_id(ids, id)[m] == other);
                } else {
                    assert(last == other);
                    assert(without_id(ids, id).last() == other);
                }
            }
            if without_id(ids, id).contains(other) {
                let m = choose|m: int| 0 <= m < without_id(ids, id).len() && without_id(ids, id)[m] == other;
                if m < without_id(front, id).len() {
                    assert(part[m] == other);
                    assert(part.contains(other));
                    assert(front.contains(other));
                    let k = choose|k: int| 0 <= k < front.len() && front[k] == other;
                    assert(ids[k] == other);
                } else {
                    assert(ids[ids.len() - 1] == other);
                }
            }
        }
        if ids.no_duplicates() {
            assert(front.no_duplicates());
            if last != id {
                assert(!front.contains(last)) by {
                    if front.contains(last) {
                        let k = choose|k: int| 0 <= k < front.len() && front[k] == last;
                        assert(ids[k] == ids[ids.len() - 1]);
                    }
                }
                assert(!without_id(front, id).contains(last));
            }
        }
        if !ids.contains(id) {
            assert(!front.contains(id)) by {
                if front.contains(id) {
                    let k = choose|k: int| 0 <= k < front.len() && front[k] == id;
                    assert(ids[k] == id);
                }
            }
            assert(last != id) by {
                if last == id {
                    assert(ids[ids.len() - 1] == id);
                }
            }
        }
    }
}

} // verus!
