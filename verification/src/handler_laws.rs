//! Laws of the connection state machine, proved over its transition
//! function.

use crate::handler::{
    closing, transition, within_ceiling, ActionView, EventView, Failure, HandlerView, Outcome,
};
use crate::recency::{insert, lookup, well_formed};
use crate::recency_laws::lemma_put_then_get;
use crate::relay::{absorb_all, joined, lemma_candidate_iff_within_ceiling, MAX_CACHE_SIZE};
use crate::request::{address_text, parsed, RequestView};
use vstd::prelude::*;

verus! {

/// The actions that the machine asks for, one for each event, when the
/// events reach it in order from `state` on.
pub open spec fn actions_from(state: HandlerView, events: Seq<EventView>) -> Seq<ActionView>
    decreases events.len(),
{
    if events.len() == 0 {
        Seq::empty()
    } else {
        let (next, action) = transition(state, events[0]);
        seq![action] + actions_from(next, events.drop_first())
    }
}

/// The state in which the origin's response is awaited after the chunks have
/// arrived and have each been written to the client.
pub open spec fn after_chunks(key: Seq<char>, chunks: Seq<Seq<u8>>) -> HandlerView
    decreases chunks.len(),
{
    if chunks.len() == 0 {
        HandlerView::ReadingOrigin { key, candidate: Some(Seq::empty()) }
    } else {
        let arrived = transition(
            after_chunks(key, chunks.drop_last()),
            EventView::Bytes(chunks.last()),
        ).0;
        transition(arrived, EventView::Done).0
    }
}

/// A closed connection stays closed: whatever is reported to it, it asks for
/// nothing but to be closed.
pub proof fn lemma_closed_is_final(events: Seq<EventView>)
    ensures
        actions_from(HandlerView::Closed, events).len() == events.len(),
        forall|i: int|
            0 <= i < events.len() ==> #[trigger] actions_from(HandlerView::Closed, events)[i]
                is Close,
    decreases events.len(),
{
    if events.len() > 0 {
        let rest = events.drop_first();
        lemma_closed_is_final(rest);
        let actions = actions_from(HandlerView::Closed, events);
        assert forall|i: int| 0 <= i < events.len() implies #[trigger] actions[i] is Close by {
            if i > 0 {
                assert(actions[i] == actions_from(HandlerView::Closed, rest)[i - 1]);
            }
        }
    }
}

/// Malformed requests: a first read that brings no bytes, or bytes that hold
/// no request, closes the connection at once. The client is written nothing,
/// the cache and the origin are not touched, and nothing that is reported
/// later changes that.
pub proof fn lemma_malformed_request_closes(bytes: Seq<u8>, later: Seq<EventView>)
    requires
        bytes.len() == 0 || parsed(bytes) is Err,
    ensures
        transition(HandlerView::ReadingRequest, EventView::Bytes(bytes)).0 == HandlerView::Closed,
        forall|i: int|
            0 <= i <= later.len() ==> #[trigger] actions_from(
                HandlerView::ReadingRequest,
                seq![EventView::Bytes(bytes)] + later,
            )[i] is Close,
{
    let events = seq![EventView::Bytes(bytes)] + later;
    assert(events.drop_first() =~= later);
    lemma_closed_is_final(later);
    let actions = actions_from(HandlerView::ReadingRequest, events);
    assert forall|i: int| 0 <= i <= later.len() implies #[trigger] actions[i] is Close by {
        if i > 0 {
            assert(actions[i] == actions_from(HandlerView::Closed, later)[i - 1]);
        }
    }
}

/// A well-formed request asks the cache first, under the URI as it was
/// received.
pub proof fn lemma_request_leads_to_lookup(bytes: Seq<u8>)
    requires
        bytes.len() > 0,
        parsed(bytes) is Ok,
    ensures
        transition(HandlerView::ReadingRequest, EventView::Bytes(bytes)) == (
            HandlerView::LookingUp { request: parsed(bytes)->Ok_0 },
            ActionView::Lookup { key: parsed(bytes)->Ok_0.uri },
        ),
{
}

/// A cache hit avoids the origin: the cached bytes go to the client as they
/// are, and whatever is reported afterwards, the machine never asks to
/// connect, to send, to read from the origin or to store.
pub proof fn lemma_hit_avoids_origin(request: RequestView, body: Seq<u8>, later: Seq<EventView>)
    ensures
        ({
            let actions = actions_from(
                HandlerView::LookingUp { request },
                seq![EventView::Cached(Some(body))] + later,
            );
            &&& actions[0] == (ActionView::ServeCached { body })
            &&& forall|i: int| 1 <= i <= later.len() ==> #[trigger] actions[i] is Close
            &&& later.len() > 0 && later[0] == EventView::Done ==> actions[1] == (ActionView::Close {
                outcome: Outcome::ServedFromCache,
            })
        }),
{
    let events = seq![EventView::Cached(Some(body))] + later;
    assert(events.drop_first() =~= later);
    let actions = actions_from(HandlerView::LookingUp { request }, events);
    let served = actions_from(HandlerView::ServingCached, later);
    assert(actions =~= seq![ActionView::ServeCached { body }] + served);
    if later.len() > 0 {
        let rest = later.drop_first();
        lemma_closed_is_final(rest);
        let step = transition(HandlerView::ServingCached, later[0]);
        assert(step.0 == HandlerView::Closed);
        assert(step.1 is Close);
        assert(served =~= seq![step.1] + actions_from(HandlerView::Closed, rest));
        assert forall|i: int| 1 <= i <= later.len() implies #[trigger] actions[i] is Close by {
            assert(actions[i] == served[i - 1]);
            if i > 1 {
                assert(served[i - 1] == actions_from(HandlerView::Closed, rest)[i - 2]);
            }
        }
    }
}

/// A cache miss leads to the origin that the request names: the machine asks
/// to connect to the host and port of the request's URI, and keeps the
/// request for what is to be sent there.
pub proof fn lemma_miss_connects(request: RequestView)
    ensures
        transition(HandlerView::LookingUp { request }, EventView::Cached(None)) == (
            HandlerView::Connecting { request },
            ActionView::Connect { address: address_text(request) },
        ),
{
}

/// Size ceiling: every chunk of a response is written to the client as it
/// came, whether or not the response is still a candidate for the cache.
/// When the stream ends, the response is stored under the request's URI,
/// byte for byte, if its size is within the ceiling; a larger one is not
/// stored, so that the next request for the URI misses the cache.
pub proof fn lemma_relay_forwards_all_and_stores_within_ceiling(
    key: Seq<char>,
    chunks: Seq<Seq<u8>>,
)
    requires
        forall|i: int| 0 <= i < chunks.len() ==> (#[trigger] chunks[i]).len() > 0,
    ensures
        after_chunks(key, chunks) == (HandlerView::ReadingOrigin {
            key,
            candidate: if joined(chunks).len() <= MAX_CACHE_SIZE {
                Some(joined(chunks))
            } else {
                None
            },
        }),
        forall|i: int|
            0 <= i < chunks.len() ==> transition(
                after_chunks(key, chunks.take(i)),
                EventView::Bytes(#[trigger] chunks[i]),
            ).1 == (ActionView::Forward { chunk: chunks[i] }),
        transition(after_chunks(key, chunks), EventView::Bytes(Seq::empty())) == if joined(
            chunks,
        ).len() <= MAX_CACHE_SIZE {
            (HandlerView::Storing, ActionView::Store { key, body: joined(chunks) })
        } else {
            closing(Outcome::Relayed)
        },
{
    lemma_after_chunks(key, chunks);
    lemma_candidate_iff_within_ceiling(chunks);
    assert forall|i: int| 0 <= i < chunks.len() implies transition(
        after_chunks(key, chunks.take(i)),
        EventView::Bytes(#[trigger] chunks[i]),
    ).1 == (ActionView::Forward { chunk: chunks[i] }) by {
        lemma_after_chunks(key, chunks.take(i));
    }
}

/// A relayed response is served from the cache next time: a response within
/// the ceiling is stored under the request's URI at the end of its stream,
/// and once the cache has taken it in, whatever it held before, the lookup
/// of a request for the same URI is answered with the same bytes, which go
/// to the client without a connection to the origin.
pub proof fn lemma_relayed_response_is_served_next(
    entries: Seq<(Seq<char>, Seq<u8>)>,
    limit: nat,
    request: RequestView,
    chunks: Seq<Seq<u8>>,
)
    requires
        well_formed(entries, limit),
        limit >= 1,
        forall|i: int| 0 <= i < chunks.len() ==> (#[trigger] chunks[i]).len() > 0,
        joined(chunks).len() <= MAX_CACHE_SIZE,
    ensures
        transition(after_chunks(request.uri, chunks), EventView::Bytes(Seq::empty())).1 == (
        ActionView::Store { key: request.uri, body: joined(chunks) }),
        transition(
            HandlerView::LookingUp { request },
            EventView::Cached(
                lookup(insert(entries, limit, request.uri, joined(chunks)), request.uri),
            ),
        ) == (HandlerView::ServingCached, ActionView::ServeCached { body: joined(chunks) }),
{
    lemma_relay_forwards_all_and_stores_within_ceiling(request.uri, chunks);
    lemma_put_then_get(entries, limit, request.uri, joined(chunks));
}

/// A response above the ceiling is fetched again next time: the end of its
/// stream closes the connection without a store, so a cache that lacked the
/// URI still lacks it, and the next request for it connects to the origin.
pub proof fn lemma_oversized_response_is_fetched_again(
    entries: Seq<(Seq<char>, Seq<u8>)>,
    request: RequestView,
    chunks: Seq<Seq<u8>>,
)
    requires
        lookup(entries, request.uri) is None,
        forall|i: int| 0 <= i < chunks.len() ==> (#[trigger] chunks[i]).len() > 0,
        joined(chunks).len() > MAX_CACHE_SIZE,
    ensures
        transition(after_chunks(request.uri, chunks), EventView::Bytes(Seq::empty())) == closing(
            Outcome::Relayed,
        ),
        transition(
            HandlerView::LookingUp { request },
            EventView::Cached(lookup(entries, request.uri)),
        ).1 is Connect,
{
    lemma_relay_forwards_all_and_stores_within_ceiling(request.uri, chunks);
}

/// While a response is relayed, the machine waits for the origin with the
/// candidate that the chunks so far have left.
pub proof fn lemma_after_chunks(key: Seq<char>, chunks: Seq<Seq<u8>>)
    requires
        forall|i: int| 0 <= i < chunks.len() ==> (#[trigger] chunks[i]).len() > 0,
    ensures
        after_chunks(key, chunks) == (HandlerView::ReadingOrigin {
            key,
            candidate: absorb_all(Some(Seq::empty()), chunks),
        }),
    decreases chunks.len(),
{
    if chunks.len() > 0 {
        let earlier = chunks.drop_last();
        assert forall|i: int| 0 <= i < earlier.len() implies (#[trigger] earlier[i]).len() > 0 by {
            assert(earlier[i] == chunks[i]);
        }
        lemma_after_chunks(key, earlier);
        assert(chunks.last() == chunks[chunks.len() - 1]);
    }
}

/// What a state keeps for the cache is within the ceiling.
pub open spec fn candidate_within_ceiling(state: HandlerView) -> bool {
    within_ceiling((state, ActionView::Close { outcome: Outcome::Relayed }))
}

/// The ceiling holds from step to step: from a state whose candidate is
/// within it, the machine reaches only such states and stores only such
/// bodies.
pub proof fn lemma_step_keeps_ceiling(state: HandlerView, event: EventView)
    requires
        candidate_within_ceiling(state),
    ensures
        within_ceiling(transition(state, event)),
        candidate_within_ceiling(transition(state, event).0),
{
}

/// Nothing larger than the ceiling is ever stored: whatever is reported to a
/// connection from its start on, in whatever order, each body that it asks
/// to store is within the cacheable size limit.
pub proof fn lemma_stored_bodies_within_ceiling(events: Seq<EventView>)
    ensures
        forall|i: int|
            0 <= i < events.len() ==> (#[trigger] actions_from(
                HandlerView::ReadingRequest,
                events,
            )[i] matches ActionView::Store { body, .. } ==> body.len() <= MAX_CACHE_SIZE),
{
    lemma_actions_within_ceiling(HandlerView::ReadingRequest, events);
}

/// From a state whose candidate is within the ceiling, every action is.
pub proof fn lemma_actions_within_ceiling(state: HandlerView, events: Seq<EventView>)
    requires
        candidate_within_ceiling(state),
    ensures
        actions_from(state, events).len() == events.len(),
        forall|i: int|
            0 <= i < events.len() ==> (#[trigger] actions_from(state, events)[i] matches ActionView::Store {
                body,
                ..
            } ==> body.len() <= MAX_CACHE_SIZE),
    decreases events.len(),
{
    if events.len() > 0 {
        let (next, action) = transition(state, events[0]);
        lemma_step_keeps_ceiling(state, events[0]);
        let rest = events.drop_first();
        lemma_actions_within_ceiling(next, rest);
        let actions = actions_from(state, events);
        assert forall|i: int| 0 <= i < events.len() implies (#[trigger] actions[i] matches ActionView::Store {
            body,
            ..
        } ==> body.len() <= MAX_CACHE_SIZE) by {
            if i > 0 {
                assert(actions[i] == actions_from(next, rest)[i - 1]);
            }
        }
    }
}

/// The first failure is the end: on `Failed` the machine closes the
/// connection as given up, whatever state it is in. It never goes on to a
/// further read, connect, write or store.
pub proof fn lemma_failure_ends_connection(state: HandlerView)
    ensures
        transition(state, EventView::Failed).0 == HandlerView::Closed,
        transition(state, EventView::Failed).1 matches ActionView::Close { outcome }
            && outcome is Aborted,
{
}

/// A failed read from the origin stores nothing: however much of the
/// response has arrived and gone to the client, the connection is given up
/// as a read failure, and the part that arrived is not put into the cache.
pub proof fn lemma_failed_origin_read_stores_nothing(key: Seq<char>, chunks: Seq<Seq<u8>>)
    requires
        forall|i: int| 0 <= i < chunks.len() ==> (#[trigger] chunks[i]).len() > 0,
    ensures
        transition(after_chunks(key, chunks), EventView::Failed) == closing(
            Outcome::Aborted(Failure::Read),
        ),
{
    lemma_after_chunks(key, chunks);
}

} // verus!
