//! Laws of the least-recently-used cache, proved over its model.

use crate::recency::{
    distinct_keys, has_key, insert, lemma_insert_well_formed, lemma_move_to_front_answers,
    lemma_promote_well_formed, lemma_slot_unique, lookup, promote, replay, slot_of, well_formed,
    Access,
};
use vstd::prelude::*;

verus! {

/// The cache after the pairs were written one after the other, first pair
/// first.
pub open spec fn insert_all(
    entries: Seq<(Seq<char>, Seq<u8>)>,
    limit: nat,
    pairs: Seq<(Seq<char>, Seq<u8>)>,
) -> Seq<(Seq<char>, Seq<u8>)>
    decreases pairs.len(),
{
    if pairs.len() == 0 {
        entries
    } else {
        insert(insert_all(entries, limit, pairs.drop_last()), limit, pairs.last().0, pairs.last().1)
    }
}

/// A key is found after a read exactly if it was found before, with the same
/// body: reads never change what the cache answers.
pub proof fn lemma_promote_keeps_answers(
    entries: Seq<(Seq<char>, Seq<u8>)>,
    touched: Seq<char>,
    key: Seq<char>,
)
    requires
        distinct_keys(entries),
    ensures
        lookup(promote(entries, touched), key) == lookup(entries, key),
{
    if has_key(entries, touched) {
        let i = slot_of(entries, touched);
        lemma_slot_unique(entries, i);
        lemma_move_to_front_answers(entries, i, entries[i], key);
    }
}

/// A body written under a key is the body read back under that key right
/// after, whatever the cache held before.
pub proof fn lemma_put_then_get(
    entries: Seq<(Seq<char>, Seq<u8>)>,
    limit: nat,
    key: Seq<char>,
    body: Seq<u8>,
)
    requires
        well_formed(entries, limit),
        limit >= 1,
    ensures
        lookup(insert(entries, limit, key, body), key) == Some(body),
{
    let after = insert(entries, limit, key, body);
    lemma_insert_well_formed(entries, limit, key, body);
    assert(after[0] == (key, body));
    lemma_slot_unique(after, 0);
}

/// A write under one key leaves the answer for every other key as it was,
/// except for the key that the write evicts: a write of a new key to a full
/// cache makes the key at the end absent.
pub proof fn lemma_put_keeps_other_answers(
    entries: Seq<(Seq<char>, Seq<u8>)>,
    limit: nat,
    key: Seq<char>,
    body: Seq<u8>,
    other: Seq<char>,
)
    requires
        well_formed(entries, limit),
        limit >= 1,
        other != key,
    ensures
        lookup(insert(entries, limit, key, body), other) == if !has_key(entries, key)
            && entries.len() == limit && entries.last().0 == other {
            None
        } else {
            lookup(entries, other)
        },
{
    let after = insert(entries, limit, key, body);
    lemma_insert_well_formed(entries, limit, key, body);
    assert(after[0] == (key, body));
    if has_key(entries, key) {
        lemma_move_to_front_answers(entries, slot_of(entries, key), (key, body), other);
    } else {
        let evicting = entries.len() == limit;
        assert forall|b: int| 1 <= b < after.len() implies #[trigger] after[b] == entries[b - 1] by {}
        if has_key(entries, other) {
            let j = slot_of(entries, other);
            lemma_slot_unique(entries, j);
            if evicting && j == entries.len() - 1 {
                if has_key(after, other) {
                    let b = slot_of(after, other);
                    assert(after[b] == entries[b - 1]);
                    assert(entries[b - 1].0 != entries[j].0);
                    assert(false);
                }
            } else {
                assert(after[j + 1] == entries[j]);
                lemma_slot_unique(after, j + 1);
            }
        } else if has_key(after, other) {
            let b = slot_of(after, other);
            assert(after[b] == entries[b - 1]);
            assert(entries[b - 1].0 == other);
            assert(false);
        }
    }
}

/// Written into an empty cache, pairs with distinct keys lie in the cache in
/// reverse order of arrival, and only the last `limit` of them are left.
pub proof fn lemma_insert_all_distinct(limit: nat, pairs: Seq<(Seq<char>, Seq<u8>)>)
    requires
        limit >= 1,
        distinct_keys(pairs),
    ensures
        ({
            let after = insert_all(Seq::empty(), limit, pairs);
            &&& after.len() == if pairs.len() <= limit {
                pairs.len()
            } else {
                limit
            }
            &&& forall|j: int| 0 <= j < after.len() ==> #[trigger] after[j] == pairs[pairs.len() - 1 - j]
            &&& well_formed(after, limit)
        }),
    decreases pairs.len(),
{
    if pairs.len() > 0 {
        let n = pairs.len() as int;
        let earlier = pairs.drop_last();
        assert forall|i: int, j: int| 0 <= i < j < earlier.len() implies (#[trigger] earlier[i]).0 != (
        #[trigger] earlier[j]).0 by {
            assert(earlier[i] == pairs[i] && earlier[j] == pairs[j]);
        }
        lemma_insert_all_distinct(limit, earlier);
        let before = insert_all(Seq::empty(), limit, earlier);
        let key = pairs.last().0;
        let body = pairs.last().1;
        let after = insert_all(Seq::empty(), limit, pairs);
        assert(after == insert(before, limit, key, body));
        if has_key(before, key) {
            let i = slot_of(before, key);
            assert(before[i] == earlier[earlier.len() - 1 - i]);
            assert(earlier[earlier.len() - 1 - i] == pairs[n - 2 - i]);
            assert(pairs[n - 2 - i].0 != pairs[n - 1].0);
            assert(false);
        }
        lemma_insert_well_formed(before, limit, key, body);
        assert forall|j: int| 0 <= j < after.len() implies #[trigger] after[j] == pairs[n - 1 - j] by {
            if j > 0 {
                assert(after[j] == before[j - 1]);
                assert(before[j - 1] == earlier[earlier.len() - 1 - (j - 1)]);
            }
        }
    }
}

/// Eviction: when one pair more than the cache has room for is written into
/// an empty cache, all keys distinct, exactly the first key is gone and every
/// later key answers with its body.
pub proof fn lemma_overflow_evicts_first(limit: nat, pairs: Seq<(Seq<char>, Seq<u8>)>)
    requires
        limit >= 1,
        distinct_keys(pairs),
        pairs.len() == limit + 1,
    ensures
        lookup(insert_all(Seq::empty(), limit, pairs), pairs[0].0) is None,
        forall|i: int|
            1 <= i < pairs.len() ==> lookup(
                insert_all(Seq::empty(), limit, pairs),
                (#[trigger] pairs[i]).0,
            ) == Some(pairs[i].1),
{
    let after = insert_all(Seq::empty(), limit, pairs);
    lemma_insert_all_distinct(limit, pairs);
    if has_key(after, pairs[0].0) {
        let j = slot_of(after, pairs[0].0);
        assert(after[j] == pairs[limit - j]);
        assert(pairs[0].0 != pairs[limit - j].0);
        assert(false);
    }
    assert forall|i: int| 1 <= i < pairs.len() implies lookup(after, (#[trigger] pairs[i]).0)
        == Some(pairs[i].1) by {
        assert(after[limit - i] == pairs[i]);
        lemma_slot_unique(after, limit - i);
    }
}

/// Recency update: fill a cache of at least two slots with distinct keys,
/// read the first key, then write a new key. The second key is evicted, the
/// first survives, and so does every other key.
pub proof fn lemma_read_protects_from_eviction(
    limit: nat,
    pairs: Seq<(Seq<char>, Seq<u8>)>,
    key: Seq<char>,
    body: Seq<u8>,
)
    requires
        limit >= 2,
        distinct_keys(pairs),
        pairs.len() == limit,
        forall|i: int| 0 <= i < pairs.len() ==> (#[trigger] pairs[i]).0 != key,
    ensures
        ({
            let filled = insert_all(Seq::empty(), limit, pairs);
            let read = promote(filled, pairs[0].0);
            let after = insert(read, limit, key, body);
            &&& lookup(filled, pairs[0].0) == Some(pairs[0].1)
            &&& lookup(after, pairs[1].0) is None
            &&& lookup(after, key) == Some(body)
            &&& forall|i: int|
                0 <= i < pairs.len() && i != 1 ==> lookup(after, (#[trigger] pairs[i]).0) == Some(
                    pairs[i].1,
                )
        }),
{
    let filled = insert_all(Seq::empty(), limit, pairs);
    lemma_insert_all_distinct(limit, pairs);
    let first = pairs[0].0;
    assert(filled[limit - 1] == pairs[0]);
    lemma_slot_unique(filled, limit - 1);
    let read = promote(filled, first);
    lemma_promote_well_formed(filled, limit, first);
    assert(read.last() == filled[limit - 2]);
    assert(filled[limit - 2] == pairs[1]);
    if has_key(read, key) {
        lemma_promote_keeps_answers(filled, first, key);
        let j = slot_of(filled, key);
        assert(filled[j] == pairs[limit - 1 - j]);
        assert(false);
    }
    let after = insert(read, limit, key, body);
    lemma_put_then_get(read, limit, key, body);
    lemma_put_keeps_other_answers(read, limit, key, body, pairs[1].0);
    assert forall|i: int| 0 <= i < pairs.len() && i != 1 implies lookup(
        after,
        (#[trigger] pairs[i]).0,
    ) == Some(pairs[i].1) by {
        let other = pairs[i].0;
        if i < 1 {
            assert(pairs[i].0 != pairs[1].0);
        } else {
            assert(pairs[1].0 != pairs[i].0);
        }
        lemma_put_keeps_other_answers(read, limit, key, body, other);
        lemma_promote_keeps_answers(filled, first, other);
        assert(filled[limit - 1 - i] == pairs[i]);
        lemma_slot_unique(filled, limit - 1 - i);
    }
}

/// Two writes under one key, as two connections make that fetched the same
/// URI side by side, leave one pair under the key: the cache stays well
/// formed, holds no more pairs than after the first write, and answers with
/// the body written last.
pub proof fn lemma_second_write_replaces(
    entries: Seq<(Seq<char>, Seq<u8>)>,
    limit: nat,
    key: Seq<char>,
    first: Seq<u8>,
    second: Seq<u8>,
)
    requires
        well_formed(entries, limit),
        limit >= 1,
    ensures
        ({
            let once = insert(entries, limit, key, first);
            let twice = insert(once, limit, key, second);
            &&& well_formed(twice, limit)
            &&& twice.len() == once.len()
            &&& lookup(twice, key) == Some(second)
            &&& twice == seq![(key, second)] + once.drop_first()
        }),
{
    let once = insert(entries, limit, key, first);
    lemma_insert_well_formed(entries, limit, key, first);
    assert(once[0] == (key, first));
    lemma_slot_unique(once, 0);
    lemma_insert_well_formed(once, limit, key, second);
    lemma_put_then_get(once, limit, key, second);
    assert(once.remove(0) =~= once.drop_first());
}

/// Every cache reached from the empty one is well formed: no key twice, never
/// more pairs than the limit.
pub proof fn lemma_replay_well_formed(limit: nat, accesses: Seq<Access>)
    ensures
        well_formed(replay(Seq::empty(), limit, accesses), limit),
    decreases accesses.len(),
{
    if accesses.len() > 0 {
        lemma_replay_well_formed(limit, accesses.drop_last());
        let before = replay(Seq::empty(), limit, accesses.drop_last());
        match accesses.last() {
            Access::Get(key) => lemma_promote_well_formed(before, limit, key),
            Access::Put(key, body) => lemma_insert_well_formed(before, limit, key, body),
        }
    }
}

/// Miss on an unseen key: a key under which nothing was ever written is
/// absent, whatever else was read and written.
pub proof fn lemma_unwritten_key_absent(limit: nat, accesses: Seq<Access>, key: Seq<char>)
    requires
        forall|i: int|
            0 <= i < accesses.len() ==> ((#[trigger] accesses[i]) matches Access::Put(written, _)
                ==> written != key),
    ensures
        lookup(replay(Seq::empty(), limit, accesses), key) is None,
    decreases accesses.len(),
{
    if accesses.len() > 0 {
        let earlier = accesses.drop_last();
        assert forall|i: int| 0 <= i < earlier.len() implies ((#[trigger] earlier[i]) matches Access::Put(
            written,
            _,
        ) ==> written != key) by {
            assert(earlier[i] == accesses[i]);
        }
        lemma_unwritten_key_absent(limit, earlier, key);
        lemma_replay_well_formed(limit, earlier);
        let before = replay(Seq::empty(), limit, earlier);
        let after = replay(Seq::empty(), limit, accesses);
        match accesses.last() {
            Access::Get(touched) => {
                lemma_promote_keeps_answers(before, touched, key);
            },
            Access::Put(written, body) => {
                assert(accesses[accesses.len() - 1] == accesses.last());
                if limit >= 1 {
                    lemma_put_keeps_other_answers(before, limit, written, body, key);
                } else if has_key(before, written) {
                    assert(before.len() == 0);
                }
            },
        }
    }
}

} // verus!
