//! The `lru` crate's cache, as this library sees it.
//!
//! Nothing in this file is proved. Each function states what the `lru` crate
//! does to the list of pairs it holds; the rest of the library is verified
//! against these statements. `get` and `put` are declared not to unwind:
//! they hash and compare strings and relink list nodes, none of which
//! panics.

use crate::recency::has_key;
use lru::LruCache;
use std::sync::Arc;
use vstd::prelude::*;

verus! {

/// The largest capacity a cache is created with. `LruCache::new` reserves
/// room for that many pairs at once, so the number has to stay allocatable.
pub const MAX_CAPACITY: usize = 65536;

#[verifier::external_type_specification]
#[verifier::external_body]
#[verifier::reject_recursive_types(K)]
#[verifier::reject_recursive_types(V)]
#[verifier::reject_recursive_types(S)]
pub struct ExLruCache<K, V, S>(LruCache<K, V, S>);

#[verifier::external_type_specification]
#[verifier::external_body]
pub struct ExDefaultHasher(lru::DefaultHasher);

/// The pairs that the cache holds, as `(key, body)`, in the order of its
/// internal list: the most recently used pair first, the least recently used
/// pair last.
pub uninterp spec fn cache_entries(cache: LruCache<String, Arc<Vec<u8>>>) -> Seq<
    (Seq<char>, Seq<u8>),
>;

/// The capacity that the cache was created with (`LruCache::cap`).
pub uninterp spec fn cache_limit(cache: LruCache<String, Arc<Vec<u8>>>) -> nat;

/// `LruCache::new`: an empty cache that holds at most `limit` pairs.
#[verifier::external_body]
pub(crate) fn lru_new(limit: usize) -> (cache: LruCache<String, Arc<Vec<u8>>>)
    requires
        limit <= MAX_CAPACITY,
    ensures
        cache_entries(cache) == Seq::<(Seq<char>, Seq<u8>)>::empty(),
        cache_limit(cache) == limit,
{
    LruCache::new(limit)
}

/// `LruCache::get`: hands out the body stored under `key` and moves that pair
/// to the head of the list; on a miss returns `None` and leaves the list as
/// it was. The returned handle shares the stored bytes.
#[verifier::external_body]
pub(crate) fn lru_get(cache: &mut LruCache<String, Arc<Vec<u8>>>, key: &str) -> (found: Option<
    Arc<Vec<u8>>,
>)
    ensures
        cache_limit(*final(cache)) == cache_limit(*old(cache)),
        match found {
            Some(body) => exists|i: int|
                0 <= i < cache_entries(*old(cache)).len() && #[trigger] cache_entries(
                    *old(cache),
                )[i] == (key@, body@) && cache_entries(*final(cache)) == seq![(key@, body@)]
                    + cache_entries(*old(cache)).remove(i),
            None => !has_key(cache_entries(*old(cache)), key@) && cache_entries(*final(cache))
                == cache_entries(*old(cache)),
        },
    no_unwind
{
    cache.get(key).cloned()
}

/// `LruCache::put`: a key already present gets the new body and moves to the
/// head of the list; a new key is attached at the head, after the pair at the
/// tail was removed if the cache held as many pairs as its capacity. With
/// capacity zero a new key is dropped.
#[verifier::external_body]
pub(crate) fn lru_put(cache: &mut LruCache<String, Arc<Vec<u8>>>, key: String, body: Arc<Vec<u8>>)
    ensures
        cache_limit(*final(cache)) == cache_limit(*old(cache)),
        if has_key(cache_entries(*old(cache)), key@) {
            exists|i: int|
                0 <= i < cache_entries(*old(cache)).len() && (#[trigger] cache_entries(
                    *old(cache),
                )[i]).0 == key@ && cache_entries(*final(cache)) == seq![(key@, body@)]
                    + cache_entries(*old(cache)).remove(i)
        } else if cache_limit(*old(cache)) == 0 {
            cache_entries(*final(cache)) == cache_entries(*old(cache))
        } else if cache_entries(*old(cache)).len() == cache_limit(*old(cache)) {
            cache_entries(*final(cache)) == seq![(key@, body@)] + cache_entries(
                *old(cache),
            ).drop_last()
        } else {
            cache_entries(*final(cache)) == seq![(key@, body@)] + cache_entries(*old(cache))
        },
    no_unwind
{
    cache.put(key, body);
}

} // verus!
