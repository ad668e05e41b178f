//! The handling of one client connection, as a state machine.
//!
//! The machine decides; the program around it acts. It starts with
//! [`Handler::start`], performs the [`Action`] it is given, reports what came
//! of it as an [`Event`] to [`Handler::step`], and goes on like that until the
//! action is [`Action::Close`]. A connection carries one request and one
//! response. Whatever fails ends this connection and nothing else; the
//! client gets no word of the proxy's own.

use crate::relay::{absorb, Relay, MAX_CACHE_SIZE, ORIGIN_BUFFER_SIZE};
use crate::request::{
    address_text, origin_request_text, parsed, ParseError, Request, RequestView,
    REQUEST_BUFFER_SIZE,
};
use std::sync::Arc;
use vstd::prelude::*;
use vstd::utf8::encode_utf8;

verus! {

/// Why a connection was given up.
#[derive(Clone, Copy, Debug, PartialEq, Eq, Structural)]
pub enum Failure {
    /// The read from the client failed or brought no bytes, or a read from
    /// the origin failed.
    Read,
    /// What the client sent is no request.
    Parse(ParseError),
    /// The cache could not be reached.
    Cache,
    /// The origin could not be reached.
    Connect,
    /// A write to the client or to the origin failed.
    Write,
    /// An event arrived that the pending action cannot have caused.
    Unexpected,
}

/// How a connection ended.
#[derive(Clone, Copy, Debug, PartialEq, Eq, Structural)]
pub enum Outcome {
    /// The response came from the cache; the origin was not contacted.
    ServedFromCache,
    /// The response came from the origin and went to the client.
    Relayed,
    /// The connection was given up without a response of the proxy's own.
    Aborted(Failure),
}

/// What came of the action that the machine asked for last.
#[derive(Debug)]
pub enum Event {
    /// The read brought these bytes; none at the end of the stream.
    Bytes(Vec<u8>),
    /// The cache answered the lookup.
    Cached(Option<Arc<Vec<u8>>>),
    /// The connect, the write or the store is done.
    Done,
    /// The action failed.
    Failed,
}

/// What the program around the machine has to do next.
#[derive(Debug)]
pub enum Action {
    /// Read once from the client, at most `limit` bytes.
    ReadClient { limit: usize },
    /// Ask the cache for `key`.
    Lookup { key: String },
    /// Write the cached response to the client.
    ServeCached { body: Arc<Vec<u8>> },
    /// Connect to the origin at `address`.
    Connect { address: String },
    /// Write `bytes` to the origin.
    SendRequest { bytes: Vec<u8> },
    /// Read once from the origin, at most `limit` bytes.
    ReadOrigin { limit: usize },
    /// Write this chunk of the origin's response to the client.
    Forward { chunk: Vec<u8> },
    /// Put `body` into the cache under `key`.
    Store { key: String, body: Arc<Vec<u8>> },
    /// Close the connection; nothing follows.
    Close { outcome: Outcome },
}

/// Where a connection stands: which action is pending, and what is kept for
/// the steps to come.
#[derive(Debug)]
pub enum Handler {
    ReadingRequest,
    LookingUp { request: Request },
    ServingCached,
    Connecting { request: Request },
    SendingRequest { key: String },
    ReadingOrigin { key: String, relay: Relay },
    Forwarding { key: String, relay: Relay },
    Storing,
    Closed,
}

/// An [`Event`] as mathematical data.
pub enum EventView {
    Bytes(Seq<u8>),
    Cached(Option<Seq<u8>>),
    Done,
    Failed,
}

/// An [`Action`] as mathematical data.
pub enum ActionView {
    ReadClient { limit: usize },
    Lookup { key: Seq<char> },
    ServeCached { body: Seq<u8> },
    Connect { address: Seq<char> },
    SendRequest { bytes: Seq<u8> },
    ReadOrigin { limit: usize },
    Forward { chunk: Seq<u8> },
    Store { key: Seq<char>, body: Seq<u8> },
    Close { outcome: Outcome },
}

/// A [`Handler`] as mathematical data.
pub enum HandlerView {
    ReadingRequest,
    LookingUp { request: RequestView },
    ServingCached,
    Connecting { request: RequestView },
    SendingRequest { key: Seq<char> },
    ReadingOrigin { key: Seq<char>, candidate: Option<Seq<u8>> },
    Forwarding { key: Seq<char>, candidate: Option<Seq<u8>> },
    Storing,
    Closed,
}

impl View for Event {
    type V = EventView;

    open spec fn view(&self) -> EventView {
        match self {
            Event::Bytes(bytes) => EventView::Bytes(bytes@),
            Event::Cached(Some(body)) => EventView::Cached(Some(body@)),
            Event::Cached(None) => EventView::Cached(None),
            Event::Done => EventView::Done,
            Event::Failed => EventView::Failed,
        }
    }
}

impl View for Action {
    type V = ActionView;

    open spec fn view(&self) -> ActionView {
        match self {
            Action::ReadClient { limit } => ActionView::ReadClient { limit: *limit },
            Action::Lookup { key } => ActionView::Lookup { key: key@ },
            Action::ServeCached { body } => ActionView::ServeCached { body: body@ },
            Action::Connect { address } => ActionView::Connect { address: address@ },
            Action::SendRequest { bytes } => ActionView::SendRequest { bytes: bytes@ },
            Action::ReadOrigin { limit } => ActionView::ReadOrigin { limit: *limit },
            Action::Forward { chunk } => ActionView::Forward { chunk: chunk@ },
            Action::Store { key, body } => ActionView::Store { key: key@, body: body@ },
            Action::Close { outcome } => ActionView::Close { outcome: *outcome },
        }
    }
}

impl View for Handler {
    type V = HandlerView;

    open spec fn view(&self) -> HandlerView {
        match self {
            Handler::ReadingRequest => HandlerView::ReadingRequest,
            Handler::LookingUp { request } => HandlerView::LookingUp { request: request@ },
            Handler::ServingCached => HandlerView::ServingCached,
            Handler::Connecting { request } => HandlerView::Connecting { request: request@ },
            Handler::SendingRequest { key } => HandlerView::SendingRequest { key: key@ },
            Handler::ReadingOrigin { key, relay } => HandlerView::ReadingOrigin {
                key: key@,
                candidate: relay@,
            },
            Handler::Forwarding { key, relay } => HandlerView::Forwarding {
                key: key@,
                candidate: relay@,
            },
            Handler::Storing => HandlerView::Storing,
            Handler::Closed => HandlerView::Closed,
        }
    }
}

/// The end of a connection: closed, with the outcome for the record.
pub open spec fn closing(outcome: Outcome) -> (HandlerView, ActionView) {
    (HandlerView::Closed, ActionView::Close { outcome })
}

/// The step after the client's first read.
///
/// No bytes, or a failed read, end the connection. Bytes that hold a request
/// lead to the cache, with the request's URI, exactly as it was received, as
/// the key. Bytes that hold none end the connection.
pub open spec fn after_request_read(event: EventView) -> (HandlerView, ActionView) {
    match event {
        EventView::Bytes(bytes) => if bytes.len() == 0 {
            closing(Outcome::Aborted(Failure::Read))
        } else {
            match parsed(bytes) {
                Ok(request) => (
                    HandlerView::LookingUp { request },
                    ActionView::Lookup { key: request.uri },
                ),
                Err(error) => closing(Outcome::Aborted(Failure::Parse(error))),
            }
        },
        EventView::Failed => closing(Outcome::Aborted(Failure::Read)),
        _ => closing(Outcome::Aborted(Failure::Unexpected)),
    }
}

/// The step after the cache's answer: a hit is written to the client as it
/// lies in the cache; a miss leads to the origin.
pub open spec fn after_lookup(request: RequestView, event: EventView) -> (HandlerView, ActionView) {
    match event {
        EventView::Cached(Some(body)) => (
            HandlerView::ServingCached,
            ActionView::ServeCached { body },
        ),
        EventView::Cached(None) => (
            HandlerView::Connecting { request },
            ActionView::Connect { address: address_text(request) },
        ),
        EventView::Failed => closing(Outcome::Aborted(Failure::Cache)),
        _ => closing(Outcome::Aborted(Failure::Unexpected)),
    }
}

/// The step after a read from the origin.
///
/// A chunk goes to the client as it came, and into the candidate for the
/// cache. A read that brings no bytes is the end of the stream and ends the
/// relay: a candidate that is still whole is stored under the request's URI,
/// and without one the connection closes. A failed read gives the connection
/// up: what was gathered of the response is dropped, and nothing is stored.
pub open spec fn after_origin_read(key: Seq<char>, candidate: Option<Seq<u8>>, event: EventView) -> (
    HandlerView,
    ActionView,
) {
    match event {
        EventView::Bytes(chunk) if chunk.len() > 0 => (
            HandlerView::Forwarding { key, candidate: absorb(candidate, chunk) },
            ActionView::Forward { chunk },
        ),
        EventView::Bytes(_) => match candidate {
            Some(body) => (HandlerView::Storing, ActionView::Store { key, body }),
            None => closing(Outcome::Relayed),
        },
        EventView::Failed => closing(Outcome::Aborted(Failure::Read)),
        _ => closing(Outcome::Aborted(Failure::Unexpected)),
    }
}

/// The step from a state on an event that reports a plain success or
/// failure: `next` on `Done`, the end with `failure` on `Failed`.
pub open spec fn after_completion(
    event: EventView,
    next: (HandlerView, ActionView),
    failure: Failure,
) -> (HandlerView, ActionView) {
    match event {
        EventView::Done => next,
        EventView::Failed => closing(Outcome::Aborted(failure)),
        _ => closing(Outcome::Aborted(Failure::Unexpected)),
    }
}

/// The next state and the next action, for every state and event.
pub open spec fn transition(state: HandlerView, event: EventView) -> (HandlerView, ActionView) {
    match state {
        HandlerView::ReadingRequest => after_request_read(event),
        HandlerView::LookingUp { request } => after_lookup(request, event),
        HandlerView::ServingCached => after_completion(
            event,
            closing(Outcome::ServedFromCache),
            Failure::Write,
        ),
        HandlerView::Connecting { request } => after_completion(
            event,
            (
                HandlerView::SendingRequest { key: request.uri },
                ActionView::SendRequest { bytes: encode_utf8(origin_request_text(request)) },
            ),
            Failure::Connect,
        ),
        HandlerView::SendingRequest { key } => after_completion(
            event,
            (
                HandlerView::ReadingOrigin { key, candidate: Some(Seq::empty()) },
                ActionView::ReadOrigin { limit: ORIGIN_BUFFER_SIZE },
            ),
            Failure::Write,
        ),
        HandlerView::ReadingOrigin { key, candidate } => after_origin_read(key, candidate, event),
        HandlerView::Forwarding { key, candidate } => after_completion(
            event,
            (
                HandlerView::ReadingOrigin { key, candidate },
                ActionView::ReadOrigin { limit: ORIGIN_BUFFER_SIZE },
            ),
            Failure::Write,
        ),
        HandlerView::Storing => after_completion(
            event,
            closing(Outcome::Relayed),
            Failure::Cache,
        ),
        HandlerView::Closed => closing(Outcome::Aborted(Failure::Unexpected)),
    }
}

/// Nothing larger than the ceiling is on its way into the cache: neither a
/// candidate that the state keeps, nor a body that the action stores.
pub open spec fn within_ceiling(step: (HandlerView, ActionView)) -> bool {
    &&& match step.0 {
        HandlerView::ReadingOrigin { candidate: Some(gathered), .. } => gathered.len()
            <= MAX_CACHE_SIZE,
        HandlerView::Forwarding { candidate: Some(gathered), .. } => gathered.len()
            <= MAX_CACHE_SIZE,
        _ => true,
    }
    &&& match step.1 {
        ActionView::Store { body, .. } => body.len() <= MAX_CACHE_SIZE,
        _ => true,
    }
}

/// Ends the connection.
fn close(outcome: Outcome) -> (next: (Handler, Action))
    ensures
        (next.0@, next.1@) == closing(outcome),
{
    (Handler::Closed, Action::Close { outcome })
}

/// Goes on to `next` if the pending action succeeded, and ends the
/// connection with `failure` if it failed.
fn complete(event: Event, next: (Handler, Action), failure: Failure) -> (result: (Handler, Action))
    ensures
        (result.0@, result.1@) == after_completion(event@, (next.0@, next.1@), failure),
{
    match event {
        Event::Done => next,
        Event::Failed => close(Outcome::Aborted(failure)),
        _ => close(Outcome::Aborted(Failure::Unexpected)),
    }
}

impl Handler {
    /// A fresh connection: the machine waits for the client's one read.
    pub fn start() -> (first: (Handler, Action))
        ensures
            first.0@ == HandlerView::ReadingRequest,
            first.1@ == (ActionView::ReadClient { limit: REQUEST_BUFFER_SIZE }),
    {
        (Handler::ReadingRequest, Action::ReadClient { limit: REQUEST_BUFFER_SIZE })
    }

    /// Tells whether the connection has ended.
    pub fn is_closed(&self) -> (closed: bool)
        ensures
            closed == (self@ == HandlerView::Closed),
    {
        match self {
            Handler::Closed => true,
            _ => false,
        }
    }

    /// Takes the event that the pending action led to, and decides what
    /// comes next.
    pub fn step(self, event: Event) -> (next: (Handler, Action))
        ensures
            (next.0@, next.1@) == transition(self@, event@),
            within_ceiling((next.0@, next.1@)),
    {
        match self {
            Handler::ReadingRequest => match event {
                Event::Bytes(bytes) => {
                    if bytes.len() == 0 {
                        close(Outcome::Aborted(Failure::Read))
                    } else {
                        match Request::parse(bytes.as_slice()) {
                            Ok(request) => {
                                let key = request.uri.clone();
                                (Handler::LookingUp { request }, Action::Lookup { key })
                            },
                            Err(error) => close(Outcome::Aborted(Failure::Parse(error))),
                        }
                    }
                },
                Event::Failed => close(Outcome::Aborted(Failure::Read)),
                _ => close(Outcome::Aborted(Failure::Unexpected)),
            },
            Handler::LookingUp { request } => match event {
                Event::Cached(Some(body)) => (Handler::ServingCached, Action::ServeCached { body }),
                Event::Cached(None) => {
                    let address = request.origin_address();
                    (Handler::Connecting { request }, Action::Connect { address })
                },
                Event::Failed => close(Outcome::Aborted(Failure::Cache)),
                _ => close(Outcome::Aborted(Failure::Unexpected)),
            },
            Handler::ServingCached => complete(
                event,
                close(Outcome::ServedFromCache),
                Failure::Write,
            ),
            Handler::Connecting { request } => {
                let bytes = request.origin_request();
                complete(
                    event,
                    (Handler::SendingRequest { key: request.uri }, Action::SendRequest { bytes }),
                    Failure::Connect,
                )
            },
            Handler::SendingRequest { key } => complete(
                event,
                (
                    Handler::ReadingOrigin { key, relay: Relay::new() },
                    Action::ReadOrigin { limit: ORIGIN_BUFFER_SIZE },
                ),
                Failure::Write,
            ),
            Handler::ReadingOrigin { key, relay } => match event {
                Event::Bytes(chunk) => {
                    if chunk.len() > 0 {
                        let mut relay = relay;
                        relay.push(chunk.as_slice());
                        (Handler::Forwarding { key, relay }, Action::Forward { chunk })
                    } else {
                        Handler::end_of_stream(key, relay)
                    }
                },
                Event::Failed => close(Outcome::Aborted(Failure::Read)),
                _ => close(Outcome::Aborted(Failure::Unexpected)),
            },
            Handler::Forwarding { key, relay } => {
                proof {
                    use_type_invariant(&relay);
                }
                complete(
                    event,
                    (
                        Handler::ReadingOrigin { key, relay },
                        Action::ReadOrigin { limit: ORIGIN_BUFFER_SIZE },
                    ),
                    Failure::Write,
                )
            },
            Handler::Storing => complete(event, close(Outcome::Relayed), Failure::Cache),
            Handler::Closed => close(Outcome::Aborted(Failure::Unexpected)),
        }
    }

    /// The origin's response is over: store it if it is still a candidate.
    fn end_of_stream(key: String, relay: Relay) -> (next: (Handler, Action))
        ensures
            (next.0@, next.1@) == match relay@ {
                Some(body) => (HandlerView::Storing, ActionView::Store { key: key@, body }),
                None => closing(Outcome::Relayed),
            },
            within_ceiling((next.0@, next.1@)),
    {
        match relay.finish() {
            Some(bytes) => (Handler::Storing, Action::Store { key, body: Arc::new(bytes) }),
            None => close(Outcome::Relayed),
        }
    }
}

} // verus!
