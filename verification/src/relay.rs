//! The candidate cache value that builds up while a response is relayed.
//!
//! Every chunk of the origin's response goes to the client. A copy of the
//! chunks is gathered on the side for the cache, until their total size
//! passes the ceiling: from then on nothing is gathered and the response will
//! not be cached.

use vstd::prelude::*;

verus! {

/// The cacheable size limit: the largest response, in bytes, that is cached.
pub const MAX_CACHE_SIZE: usize = 1048576;

/// The size of the buffer for each read from the origin.
pub const ORIGIN_BUFFER_SIZE: usize = 1024;

/// The candidate after one more chunk: the gathered bytes with the chunk
/// appended, or nothing once that would pass the ceiling. What was given up
/// stays given up.
pub open spec fn absorb(candidate: Option<Seq<u8>>, chunk: Seq<u8>) -> Option<Seq<u8>> {
    match candidate {
        Some(gathered) => if gathered.len() + chunk.len() > MAX_CACHE_SIZE {
            None
        } else {
            Some(gathered + chunk)
        },
        None => None,
    }
}

/// The candidate after a series of chunks, first chunk first.
pub open spec fn absorb_all(candidate: Option<Seq<u8>>, chunks: Seq<Seq<u8>>) -> Option<Seq<u8>>
    decreases chunks.len(),
{
    if chunks.len() == 0 {
        candidate
    } else {
        absorb(absorb_all(candidate, chunks.drop_last()), chunks.last())
    }
}

/// The chunks as one run of bytes.
pub open spec fn joined(chunks: Seq<Seq<u8>>) -> Seq<u8>
    decreases chunks.len(),
{
    if chunks.len() == 0 {
        Seq::empty()
    } else {
        joined(chunks.drop_last()) + chunks.last()
    }
}

/// Size ceiling: a response is a cache candidate at its end exactly if its
/// whole size is within the ceiling, and the candidate is then the response,
/// byte for byte, however it was cut into chunks.
pub proof fn lemma_candidate_iff_within_ceiling(chunks: Seq<Seq<u8>>)
    ensures
        absorb_all(Some(Seq::empty()), chunks) == if joined(chunks).len() <= MAX_CACHE_SIZE {
            Some(joined(chunks))
        } else {
            None
        },
    decreases chunks.len(),
{
    if chunks.len() > 0 {
        lemma_candidate_iff_within_ceiling(chunks.drop_last());
    }
}

/// The bytes gathered for the cache while a response passes through.
#[derive(Debug)]
pub struct Relay {
    gathered: Vec<u8>,
    keeping: bool,
}

impl View for Relay {
    type V = Option<Seq<u8>>;

    /// The bytes gathered so far, or `None` once the response has passed the
    /// ceiling.
    closed spec fn view(&self) -> Option<Seq<u8>> {
        if self.keeping {
            Some(self.gathered@)
        } else {
            None
        }
    }
}

impl Relay {
    /// What holds of every relay: a candidate is within the ceiling.
    pub open spec fn valid(&self) -> bool {
        self@ matches Some(gathered) ==> gathered.len() <= MAX_CACHE_SIZE
    }

    #[verifier::type_invariant]
    pub(crate) open spec fn inv(&self) -> bool {
        self.valid()
    }

    /// The candidate before the first chunk: no bytes yet.
    pub fn new() -> (relay: Relay)
        ensures
            relay.valid(),
            relay@ == Some(Seq::<u8>::empty()),
    {
        Relay { gathered: Vec::new(), keeping: true }
    }

    /// Takes note of one chunk of the response.
    pub fn push(&mut self, chunk: &[u8])
        ensures
            old(self).valid(),
            final(self).valid(),
            final(self)@ == absorb(old(self)@, chunk@),
    {
        proof {
            use_type_invariant(&*self);
        }
        if self.keeping {
            let mut gathered = Vec::new();
            std::mem::swap(&mut self.gathered, &mut gathered);
            if chunk.len() > MAX_CACHE_SIZE - gathered.len() {
                self.keeping = false;
            } else {
                gathered.extend_from_slice(chunk);
                self.gathered = gathered;
            }
        }
    }

    /// Ends the response: the bytes to cache, never more than the ceiling,
    /// or `None` when the response passed the ceiling.
    pub fn finish(self) -> (body: Option<Vec<u8>>)
        ensures
            self.valid(),
            match body {
                Some(bytes) => self@ == Some(bytes@) && bytes@.len() <= MAX_CACHE_SIZE,
                None => self@ is None,
            },
    {
        proof {
            use_type_invariant(&self);
        }
        if self.keeping {
            Some(self.gathered)
        } else {
            None
        }
    }
}

} // verus!
