//! The response cache: a bounded store from request URI to response bytes
//! with least-recently-used eviction.

use crate::lru_cache::{cache_entries, cache_limit, lru_get, lru_new, lru_put, MAX_CAPACITY};
use crate::recency::{
    apply, has_key, insert, lemma_insert_well_formed, lemma_promote_well_formed,
    lemma_slot_unique, lookup, promote, well_formed, Access,
};
use crate::recency_laws::lemma_put_then_get;
use lru::LruCache;
use std::sync::Arc;
use vstd::prelude::*;

verus! {

/// The number of responses that a cache made by [`CacheStore::new`] holds.
pub const DEFAULT_CAPACITY: usize = 32;

/// A request to a store that one task owns and all others reach by
/// message. A `Get` is owed an answer, a `Put` is owed none.
#[derive(Debug)]
pub enum CacheRequest {
    Get { key: String },
    Put { key: String, body: Arc<Vec<u8>> },
}

impl View for CacheRequest {
    type V = Access;

    open spec fn view(&self) -> Access {
        match self {
            CacheRequest::Get { key } => Access::Get(key@),
            CacheRequest::Put { key, body } => Access::Put(key@, body@),
        }
    }
}

/// A bounded key-to-body store. Both `get` and `put` count as a use of the
/// key; when a new key arrives at a full store, the key whose last use lies
/// furthest back leaves.
pub struct CacheStore {
    inner: LruCache<String, Arc<Vec<u8>>>,
}

impl CacheStore {
    /// The stored pairs, most recently used first.
    pub closed spec fn entries(&self) -> Seq<(Seq<char>, Seq<u8>)> {
        cache_entries(self.inner)
    }

    /// The number of pairs the store has room for.
    pub closed spec fn capacity(&self) -> nat {
        cache_limit(self.inner)
    }

    /// What holds of every store: no key is stored twice, there is room for
    /// at least one pair, and there are never more pairs than there is room
    /// for.
    pub open spec fn valid(&self) -> bool {
        well_formed(self.entries(), self.capacity()) && 1 <= self.capacity() <= MAX_CAPACITY
    }

    #[verifier::type_invariant]
    spec fn inv(&self) -> bool {
        self.valid()
    }

    /// An empty store with room for [`DEFAULT_CAPACITY`] responses.
    pub fn new() -> (store: CacheStore)
        ensures
            store.valid(),
            store.entries() == Seq::<(Seq<char>, Seq<u8>)>::empty(),
            store.capacity() == DEFAULT_CAPACITY,
    {
        CacheStore { inner: lru_new(DEFAULT_CAPACITY) }
    }

    /// An empty store with room for `capacity` responses, or `None` when
    /// `capacity` is zero or above [`MAX_CAPACITY`].
    pub fn with_capacity(capacity: usize) -> (made: Option<CacheStore>)
        ensures
            made is Some <==> 1 <= capacity <= MAX_CAPACITY,
            made matches Some(store) ==> store.valid() && store.entries() == Seq::<
                (Seq<char>, Seq<u8>),
            >::empty() && store.capacity() == capacity,
    {
        if capacity == 0 || capacity > MAX_CAPACITY {
            None
        } else {
            Some(CacheStore { inner: lru_new(capacity) })
        }
    }

    /// Looks `key` up. A hit returns the stored body, shared and not copied,
    /// and makes `key` the most recently used; a miss changes nothing.
    pub fn get(&mut self, key: &str) -> (found: Option<Arc<Vec<u8>>>)
        ensures
            old(self).valid(),
            final(self).valid(),
            final(self).capacity() == old(self).capacity(),
            final(self).entries() == promote(old(self).entries(), key@),
            match found {
                Some(body) => lookup(old(self).entries(), key@) == Some(body@),
                None => lookup(old(self).entries(), key@) is None,
            },
    {
        proof {
            use_type_invariant(&*self);
            lemma_promote_well_formed(self.entries(), self.capacity(), key@);
        }
        let ghost before = self.entries();
        let found = lru_get(&mut self.inner, key);
        proof {
            if found is Some {
                let hit = (key@, found->0@);
                let i = choose|i: int|
                    0 <= i < before.len() && #[trigger] before[i] == hit && self.entries()
                        == seq![hit] + before.remove(i);
                lemma_slot_unique(before, i);
            }
        }
        found
    }

    /// Stores `body` under `key` and makes `key` the most recently used. A
    /// key already present is overwritten; a new key at a full store evicts
    /// the least recently used pair first.
    pub fn put(&mut self, key: String, body: Arc<Vec<u8>>)
        ensures
            old(self).valid(),
            final(self).valid(),
            final(self).capacity() == old(self).capacity(),
            final(self).entries() == insert(
                old(self).entries(),
                old(self).capacity(),
                key@,
                body@,
            ),
            lookup(final(self).entries(), key@) == Some(body@),
    {
        proof {
            use_type_invariant(&*self);
            lemma_insert_well_formed(self.entries(), self.capacity(), key@, body@);
            lemma_put_then_get(self.entries(), self.capacity(), key@, body@);
        }
        let ghost before = self.entries();
        let ghost stored = (key@, body@);
        lru_put(&mut self.inner, key, body);
        proof {
            if has_key(before, stored.0) {
                let i = choose|i: int|
                    0 <= i < before.len() && (#[trigger] before[i]).0 == stored.0
                        && self.entries() == seq![stored] + before.remove(i);
                lemma_slot_unique(before, i);
            }
        }
    }

    /// Carries out one request, as the owner of the store does for each
    /// message in the order of arrival: the same `get` or `put` that a holder
    /// of the lock would call. Returns the answer owed to a `Get`, and `None`
    /// for a `Put`.
    pub fn serve(&mut self, request: CacheRequest) -> (reply: Option<Option<Arc<Vec<u8>>>>)
        ensures
            old(self).valid(),
            final(self).valid(),
            final(self).capacity() == old(self).capacity(),
            final(self).entries() == apply(old(self).entries(), old(self).capacity(), request@),
            match request@ {
                Access::Get(key) => match reply {
                    Some(Some(body)) => lookup(old(self).entries(), key) == Some(body@),
                    Some(None) => lookup(old(self).entries(), key) is None,
                    None => false,
                },
                Access::Put(_, _) => reply is None,
            },
    {
        match request {
            CacheRequest::Get { key } => Some(self.get(key.as_str())),
            CacheRequest::Put { key, body } => {
                self.put(key, body);
                None
            },
        }
    }
}

} // verus!
