//! The mathematical model of a least-recently-used cache.
//!
//! A cache is a sequence of `(key, body)` pairs ordered by recency: the pair
//! at index 0 is the most recently used, the pair at the end is the next to
//! be evicted.

use vstd::prelude::*;

verus! {

/// Some pair of `entries` is stored under `key`.
pub open spec fn has_key(entries: Seq<(Seq<char>, Seq<u8>)>, key: Seq<char>) -> bool {
    exists|i: int| 0 <= i < entries.len() && (#[trigger] entries[i]).0 == key
}

/// The index of a pair stored under `key`; meaningful when `has_key` holds,
/// and the only such index when the keys are distinct.
pub open spec fn slot_of(entries: Seq<(Seq<char>, Seq<u8>)>, key: Seq<char>) -> int {
    choose|i: int| 0 <= i < entries.len() && (#[trigger] entries[i]).0 == key
}

/// No key occurs twice.
pub open spec fn distinct_keys(entries: Seq<(Seq<char>, Seq<u8>)>) -> bool {
    forall|i: int, j: int|
        0 <= i < j < entries.len() ==> (#[trigger] entries[i]).0 != (#[trigger] entries[j]).0
}

/// A cache state that the operations below keep: distinct keys, never more
/// pairs than `limit`.
pub open spec fn well_formed(entries: Seq<(Seq<char>, Seq<u8>)>, limit: nat) -> bool {
    distinct_keys(entries) && entries.len() <= limit
}

/// The body stored under `key`, if any.
pub open spec fn lookup(entries: Seq<(Seq<char>, Seq<u8>)>, key: Seq<char>) -> Option<Seq<u8>> {
    if has_key(entries, key) {
        Some(entries[slot_of(entries, key)].1)
    } else {
        None
    }
}

/// The cache after a read of `key`: a pair stored under it moves to the
/// front, everything else keeps its order. A miss changes nothing.
pub open spec fn promote(entries: Seq<(Seq<char>, Seq<u8>)>, key: Seq<char>) -> Seq<
    (Seq<char>, Seq<u8>),
> {
    if has_key(entries, key) {
        let i = slot_of(entries, key);
        seq![entries[i]] + entries.remove(i)
    } else {
        entries
    }
}

/// The cache after `body` is stored under `key` with room for `limit` pairs.
///
/// A key already present gets the new body and moves to the front. A new key
/// goes to the front; if the cache is full, the pair at the end leaves first.
/// A cache without room for a single pair stays empty.
pub open spec fn insert(
    entries: Seq<(Seq<char>, Seq<u8>)>,
    limit: nat,
    key: Seq<char>,
    body: Seq<u8>,
) -> Seq<(Seq<char>, Seq<u8>)> {
    if has_key(entries, key) {
        seq![(key, body)] + entries.remove(slot_of(entries, key))
    } else if limit == 0 {
        entries
    } else if entries.len() == limit {
        seq![(key, body)] + entries.drop_last()
    } else {
        seq![(key, body)] + entries
    }
}

/// One use of the cache: a read of a key, or a write of a body under a key.
pub enum Access {
    Get(Seq<char>),
    Put(Seq<char>, Seq<u8>),
}

/// The cache after one access.
pub open spec fn apply(entries: Seq<(Seq<char>, Seq<u8>)>, limit: nat, access: Access) -> Seq<
    (Seq<char>, Seq<u8>),
> {
    match access {
        Access::Get(key) => promote(entries, key),
        Access::Put(key, body) => insert(entries, limit, key, body),
    }
}

/// The cache after a series of accesses, applied in order.
pub open spec fn replay(
    entries: Seq<(Seq<char>, Seq<u8>)>,
    limit: nat,
    accesses: Seq<Access>,
) -> Seq<(Seq<char>, Seq<u8>)>
    decreases accesses.len(),
{
    if accesses.len() == 0 {
        entries
    } else {
        apply(replay(entries, limit, accesses.drop_last()), limit, accesses.last())
    }
}

/// With distinct keys, the slot of a key is the index at which it is found.
pub proof fn lemma_slot_unique(entries: Seq<(Seq<char>, Seq<u8>)>, i: int)
    requires
        distinct_keys(entries),
        0 <= i < entries.len(),
    ensures
        has_key(entries, entries[i].0),
        slot_of(entries, entries[i].0) == i,
        lookup(entries, entries[i].0) == Some(entries[i].1),
{
    let key = entries[i].0;
    let j = slot_of(entries, key);
    assert(0 <= j < entries.len() && entries[j].0 == key);
    if j < i {
        assert(entries[j].0 != entries[i].0);
    } else if i < j {
        assert(entries[i].0 != entries[j].0);
    }
}

/// Moving to the front: when the pair at `i` is taken out of `entries` and
/// `head` is put in front, the length stays, the pairs before `i` lie one
/// place further back, and the pairs behind `i` stay where they were. Where
/// `head` has the key of the pair it replaces, distinct keys stay distinct.
pub proof fn lemma_move_to_front(
    entries: Seq<(Seq<char>, Seq<u8>)>,
    i: int,
    head: (Seq<char>, Seq<u8>),
)
    requires
        0 <= i < entries.len(),
    ensures
        ({
            let after = seq![head] + entries.remove(i);
            &&& after.len() == entries.len()
            &&& after[0] == head
            &&& forall|b: int|
                1 <= b < after.len() ==> #[trigger] after[b] == entries[if b - 1 < i {
                    b - 1
                } else {
                    b
                }]
            &&& distinct_keys(entries) && head.0 == entries[i].0 ==> distinct_keys(after)
        }),
{
    let after = seq![head] + entries.remove(i);
    if distinct_keys(entries) && head.0 == entries[i].0 {
        assert forall|a: int, b: int| 0 <= a < b < after.len() implies (#[trigger] after[a]).0 != (
        #[trigger] after[b]).0 by {
            let from_b = if b - 1 < i {
                b - 1
            } else {
                b
            };
            assert(after[b] == entries[from_b]);
            if a == 0 {
                if from_b < i {
                    assert(entries[from_b].0 != entries[i].0);
                } else {
                    assert(entries[i].0 != entries[from_b].0);
                }
            } else {
                let from_a = if a - 1 < i {
                    a - 1
                } else {
                    a
                };
                assert(after[a] == entries[from_a]);
                assert(entries[from_a].0 != entries[from_b].0);
            }
        }
    }
}

/// Moving to the front changes no answer: when a pair with the key of the
/// pair at `i` takes that pair's place and goes to the front of a cache with
/// distinct keys, that key answers with the new body, and every other key
/// answers as before.
pub proof fn lemma_move_to_front_answers(
    entries: Seq<(Seq<char>, Seq<u8>)>,
    i: int,
    head: (Seq<char>, Seq<u8>),
    key: Seq<char>,
)
    requires
        distinct_keys(entries),
        0 <= i < entries.len(),
        head.0 == entries[i].0,
    ensures
        lookup(seq![head] + entries.remove(i), key) == if key == head.0 {
            Some(head.1)
        } else {
            lookup(entries, key)
        },
{
    let after = seq![head] + entries.remove(i);
    lemma_move_to_front(entries, i, head);
    if key == head.0 {
        lemma_slot_unique(after, 0);
    } else if has_key(entries, key) {
        let j = slot_of(entries, key);
        lemma_slot_unique(entries, j);
        let b = if j < i {
            j + 1
        } else {
            j
        };
        assert(after[b] == entries[j]);
        lemma_slot_unique(after, b);
    } else if has_key(after, key) {
        let b = slot_of(after, key);
        let from = if b - 1 < i {
            b - 1
        } else {
            b
        };
        assert(after[b] == entries[from]);
        assert(entries[from].0 == key);
    }
}

/// A read keeps the cache well formed and keeps its size.
pub proof fn lemma_promote_well_formed(
    entries: Seq<(Seq<char>, Seq<u8>)>,
    limit: nat,
    key: Seq<char>,
)
    requires
        well_formed(entries, limit),
    ensures
        well_formed(promote(entries, key), limit),
        promote(entries, key).len() == entries.len(),
{
    if has_key(entries, key) {
        let i = slot_of(entries, key);
        lemma_move_to_front(entries, i, entries[i]);
    }
}

/// A write keeps the cache well formed.
pub proof fn lemma_insert_well_formed(
    entries: Seq<(Seq<char>, Seq<u8>)>,
    limit: nat,
    key: Seq<char>,
    body: Seq<u8>,
)
    requires
        well_formed(entries, limit),
    ensures
        well_formed(insert(entries, limit, key, body), limit),
{
    let after = insert(entries, limit, key, body);
    if has_key(entries, key) {
        lemma_move_to_front(entries, slot_of(entries, key), (key, body));
    } else if limit > 0 {
        assert forall|a: int, b: int| 0 <= a < b < after.len() implies (#[trigger] after[a]).0 != (
        #[trigger] after[b]).0 by {
            assert(after[b] == entries[b - 1]);
            if a == 0 {
                assert(entries[b - 1].0 != key);
            } else {
                assert(after[a] == entries[a - 1]);
                assert(entries[a - 1].0 != entries[b - 1].0);
            }
        }
    }
}

} // verus!
