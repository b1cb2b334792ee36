//! Finding a key in an ordered list of slots, where "the same key" is what
//! the caller says it is. The three registries of this crate look their
//! entries up this way.
use vstd::prelude::*;

verus! {

/// The first slot from `start` on whose key `same` accepts.
pub open spec fn first_where<K, V>(slots: Seq<(K, V)>, same: spec_fn(K) -> bool, start: int) -> Option<
    int,
>
    decreases slots.len() - start,
{
    if start < 0 || start >= slots.len() {
        None
    } else if same(slots[start].0) {
        Some(start)
    } else {
        first_where(slots, same, start + 1)
    }
}

/// What `first_where` finds is the first slot from `start` on whose key is
/// accepted, and it finds none exactly when no key from there on is.
pub proof fn lemma_first_where<K, V>(slots: Seq<(K, V)>, same: spec_fn(K) -> bool, start: int)
    requires
        0 <= start,
    ensures
        match first_where(slots, same, start) {
            Some(i) => start <= i < slots.len() && same(slots[i].0) && forall|j: int|
                start <= j < i ==> !same((#[trigger] slots[j]).0),
            None => forall|j: int| start <= j < slots.len() ==> !same((#[trigger] slots[j]).0),
        },
    decreases slots.len() - start,
{
    if start < slots.len() && !same(slots[start].0) {
        lemma_first_where(slots, same, start + 1);
    }
}

/// A slot whose key is accepted, with no accepted key before it, is the one
/// that is found.
pub proof fn lemma_first_where_is<K, V>(slots: Seq<(K, V)>, same: spec_fn(K) -> bool, i: int)
    requires
        0 <= i < slots.len(),
        same(slots[i].0),
        forall|j: int| 0 <= j < i ==> !same((#[trigger] slots[j]).0),
    ensures
        first_where(slots, same, 0) == Some(i),
{
    lemma_first_where(slots, same, 0);
}

/// Two lists that hold the same keys in the same order find every key in the
/// same slot, whatever else the slots hold.
pub proof fn lemma_same_keys_same_place<K, V, W>(
    a: Seq<(K, V)>,
    b: Seq<(K, W)>,
    same: spec_fn(K) -> bool,
)
    requires
        a.len() == b.len(),
        forall|j: int| 0 <= j < a.len() ==> (#[trigger] a[j]).0 == b[j].0,
    ensures
        first_where(a, same, 0) == first_where(b, same, 0),
{
    lemma_first_where(a, same, 0);
    lemma_first_where(b, same, 0);
    match first_where(a, same, 0) {
        Some(i) => {
            assert(a[i].0 == b[i].0);
            match first_where(b, same, 0) {
                Some(k) => {
                    assert(a[k].0 == b[k].0);
                },
                None => {
                    assert(!same(b[i].0));
                },
            }
        },
        None => {
            match first_where(b, same, 0) {
                Some(k) => {
                    assert(a[k].0 == b[k].0);
                    assert(!same(a[k].0));
                },
                None => {},
            }
        },
    }
}

/// The task id that follows `token`; after the last one the numbers start
/// over.
pub open spec fn token_after(token: u64) -> u64 {
    if token == u64::MAX {
        0
    } else {
        (token + 1) as u64
    }
}

/// The task id that follows `token`.
pub fn next_token(token: u64) -> (next: u64)
    ensures
        next == token_after(token),
{
    if token == u64::MAX {
        0
    } else {
        token + 1
    }
}

} // verus!
