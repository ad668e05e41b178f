use cache_proxy::cache::CacheStore;
use cache_proxy::handler::{Action, Event, Failure, Handler, Outcome};
use cache_proxy::relay::MAX_CACHE_SIZE;
use cache_proxy::request::ParseError;
use std::sync::Arc;

/// A stand-in for the origin server: it counts the connections it gets and
/// answers each with the same response.
struct Origin {
    response: Vec<u8>,
    reachable: bool,
    /// The read that follows this many delivered bytes fails.
    fails_after: Option<usize>,
    connections: usize,
    addresses: Vec<String>,
    requests: Vec<Vec<u8>>,
}

impl Origin {
    fn with_response(response: Vec<u8>) -> Origin {
        Origin {
            response,
            reachable: true,
            fails_after: None,
            connections: 0,
            addresses: Vec::new(),
            requests: Vec::new(),
        }
    }
}

/// One client connection, driven one action at a time.
struct Connection {
    input: Vec<u8>,
    handler: Option<Handler>,
    pending: Option<Action>,
    received: Vec<u8>,
    cursor: usize,
    forwards: usize,
    outcome: Option<Outcome>,
}

impl Connection {
    fn open(input: &[u8]) -> Connection {
        let (handler, action) = Handler::start();
        Connection {
            input: input.to_vec(),
            handler: Some(handler),
            pending: Some(action),
            received: Vec::new(),
            cursor: 0,
            forwards: 0,
            outcome: None,
        }
    }

    /// Performs the pending action and reports the result to the machine.
    fn advance(&mut self, cache: &mut CacheStore, origin: &mut Origin) {
        let action = self.pending.take().expect("an open connection");
        let event = match action {
            Action::ReadClient { limit } => {
                let n = self.input.len().min(limit);
                Event::Bytes(self.input[..n].to_vec())
            }
            Action::Lookup { key } => Event::Cached(cache.get(&key)),
            Action::ServeCached { body } => {
                self.received.extend_from_slice(&body);
                Event::Done
            }
            Action::Connect { address } => {
                if origin.reachable {
                    origin.connections += 1;
                    origin.addresses.push(address);
                    self.cursor = 0;
                    Event::Done
                } else {
                    Event::Failed
                }
            }
            Action::SendRequest { bytes } => {
                origin.requests.push(bytes);
                Event::Done
            }
            Action::ReadOrigin { limit } => {
                if origin.fails_after == Some(self.cursor) {
                    Event::Failed
                } else {
                    let end = origin.response.len().min(self.cursor + limit);
                    let chunk = origin.response[self.cursor..end].to_vec();
                    self.cursor = end;
                    Event::Bytes(chunk)
                }
            }
            Action::Forward { chunk } => {
                self.received.extend_from_slice(&chunk);
                self.forwards += 1;
                Event::Done
            }
            Action::Store { key, body } => {
                cache.put(key, body);
                Event::Done
            }
            Action::Close { outcome } => {
                self.outcome = Some(outcome);
                assert!(self.handler.as_ref().unwrap().is_closed());
                return;
            }
        };
        let (handler, action) = self.handler.take().unwrap().step(event);
        self.handler = Some(handler);
        self.pending = Some(action);
    }

    fn run(&mut self, cache: &mut CacheStore, origin: &mut Origin) -> Outcome {
        while self.outcome.is_none() {
            self.advance(cache, origin);
        }
        self.outcome.unwrap()
    }
}

fn response(size: usize) -> Vec<u8> {
    let mut bytes = b"HTTP/1.0 200 OK\r\n\r\n".to_vec();
    let mut i = 0usize;
    while bytes.len() < size {
        bytes.push((i % 251) as u8);
        i += 1;
    }
    bytes.truncate(size);
    bytes
}

const REQUEST: &[u8] = b"GET http://origin.test:8000/page HTTP/1.1\r\nHost: origin.test\r\n\r\n";

#[test]
fn a_connection_starts_with_one_read() {
    let (handler, action) = Handler::start();
    assert!(!handler.is_closed());
    assert!(matches!(action, Action::ReadClient { limit: 1024 }));
}

#[test]
fn a_miss_is_fetched_relayed_and_stored() {
    let mut cache = CacheStore::new();
    let mut origin = Origin::with_response(response(5000));
    let mut client = Connection::open(REQUEST);
    assert_eq!(client.run(&mut cache, &mut origin), Outcome::Relayed);
    assert_eq!(client.received, origin.response);
    assert_eq!(client.forwards, 5);
    assert_eq!(origin.connections, 1);
    assert_eq!(origin.addresses, vec!["origin.test:8000".to_string()]);
    let expected = "GET /page HTTP/1.0\r\n\
        Host: origin.test:8000\r\n\
        User-Agent: Mozilla/5.0 (X11; Linux x86_64; rv:10.0.3) Gecko/20120305 Firefox/10.0.3\r\n\
        Connection: close\r\n\
        Proxy-Connection: close\r\n\
        \r\n";
    assert_eq!(origin.requests, vec![expected.as_bytes().to_vec()]);
    let stored = cache.get("http://origin.test:8000/page").expect("stored under the URI");
    assert_eq!(*stored, origin.response);
}

#[test]
fn a_cache_hit_avoids_the_origin() {
    let mut cache = CacheStore::new();
    let mut origin = Origin::with_response(response(3000));
    let mut first = Connection::open(REQUEST);
    assert_eq!(first.run(&mut cache, &mut origin), Outcome::Relayed);
    let mut second = Connection::open(REQUEST);
    assert_eq!(second.run(&mut cache, &mut origin), Outcome::ServedFromCache);
    assert_eq!(origin.connections, 1);
    assert_eq!(second.received, first.received);
    assert_eq!(second.received, origin.response);
    assert_eq!(second.forwards, 0);
}

#[test]
fn a_hit_is_served_even_when_the_origin_is_gone() {
    let mut cache = CacheStore::new();
    cache.put("http://origin.test:8000/page".to_string(), Arc::new(b"cached".to_vec()));
    let mut origin = Origin::with_response(Vec::new());
    origin.reachable = false;
    let mut client = Connection::open(REQUEST);
    assert_eq!(client.run(&mut cache, &mut origin), Outcome::ServedFromCache);
    assert_eq!(client.received, b"cached".to_vec());
    assert_eq!(origin.connections, 0);
}

#[test]
fn an_oversized_response_is_relayed_but_not_cached() {
    let mut cache = CacheStore::new();
    let mut origin = Origin::with_response(response(MAX_CACHE_SIZE + 1));
    let mut first = Connection::open(REQUEST);
    assert_eq!(first.run(&mut cache, &mut origin), Outcome::Relayed);
    assert_eq!(first.received.len(), MAX_CACHE_SIZE + 1);
    assert_eq!(first.received, origin.response);
    assert!(cache.get("http://origin.test:8000/page").is_none());
    let mut second = Connection::open(REQUEST);
    assert_eq!(second.run(&mut cache, &mut origin), Outcome::Relayed);
    assert_eq!(origin.connections, 2);
    assert_eq!(second.received, origin.response);
}

#[test]
fn a_response_of_exactly_the_ceiling_is_cached() {
    let mut cache = CacheStore::new();
    let mut origin = Origin::with_response(response(MAX_CACHE_SIZE));
    let mut first = Connection::open(REQUEST);
    assert_eq!(first.run(&mut cache, &mut origin), Outcome::Relayed);
    let mut second = Connection::open(REQUEST);
    assert_eq!(second.run(&mut cache, &mut origin), Outcome::ServedFromCache);
    assert_eq!(origin.connections, 1);
    assert_eq!(second.received, origin.response);
}

#[test]
fn an_empty_response_is_cached_too() {
    let mut cache = CacheStore::new();
    let mut origin = Origin::with_response(Vec::new());
    let mut first = Connection::open(REQUEST);
    assert_eq!(first.run(&mut cache, &mut origin), Outcome::Relayed);
    assert!(first.received.is_empty());
    let mut second = Connection::open(REQUEST);
    assert_eq!(second.run(&mut cache, &mut origin), Outcome::ServedFromCache);
    assert_eq!(origin.connections, 1);
}

#[test]
fn malformed_requests_close_without_a_response() {
    let mut cache = CacheStore::new();
    let mut origin = Origin::with_response(response(100));
    let cases: [(&[u8], Outcome); 6] = [
        (b"", Outcome::Aborted(Failure::Read)),
        (b"GET", Outcome::Aborted(Failure::Parse(ParseError::NoTarget))),
        (b"   \r\n", Outcome::Aborted(Failure::Parse(ParseError::NoMethod))),
        (b"GET http://exa<mple/ HTTP/1.0", Outcome::Aborted(Failure::Parse(ParseError::BadUri))),
        (b"GET /relative HTTP/1.0", Outcome::Aborted(Failure::Parse(ParseError::NoAuthority))),
        (b"GET \xff\xff HTTP/1.0", Outcome::Aborted(Failure::Parse(ParseError::NotText))),
    ];
    for (input, expected) in cases {
        let mut client = Connection::open(input);
        assert_eq!(client.run(&mut cache, &mut origin), expected);
        assert!(client.received.is_empty());
    }
    assert_eq!(origin.connections, 0);
    // The next well-formed connection goes through as if nothing had happened.
    let mut client = Connection::open(REQUEST);
    assert_eq!(client.run(&mut cache, &mut origin), Outcome::Relayed);
    assert_eq!(client.received, origin.response);
    assert_eq!(origin.connections, 1);
}

#[test]
fn only_the_first_read_counts() {
    let mut cache = CacheStore::new();
    let mut origin = Origin::with_response(response(10));
    // The target ends behind the 1024th byte: the one read cuts it short.
    let mut input = b"GET http://origin.test/".to_vec();
    input.extend(std::iter::repeat(b'a').take(2000));
    input.extend_from_slice(b" HTTP/1.0\r\n\r\n");
    let mut client = Connection::open(&input);
    assert_eq!(client.run(&mut cache, &mut origin), Outcome::Relayed);
    let key = String::from_utf8(input[4..1024].to_vec()).unwrap();
    assert!(cache.get(&key).is_some());
}

#[test]
fn an_unreachable_origin_aborts_the_connection() {
    let mut cache = CacheStore::new();
    let mut origin = Origin::with_response(response(10));
    origin.reachable = false;
    let mut client = Connection::open(REQUEST);
    assert_eq!(client.run(&mut cache, &mut origin), Outcome::Aborted(Failure::Connect));
    assert!(client.received.is_empty());
    assert!(cache.get("http://origin.test:8000/page").is_none());
}

#[test]
fn concurrent_misses_fetch_independently() {
    let mut cache = CacheStore::new();
    let mut origin = Origin::with_response(response(4000));
    let mut a = Connection::open(REQUEST);
    let mut b = Connection::open(REQUEST);
    while a.outcome.is_none() || b.outcome.is_none() {
        if a.outcome.is_none() {
            a.advance(&mut cache, &mut origin);
        }
        if b.outcome.is_none() {
            b.advance(&mut cache, &mut origin);
        }
    }
    assert_eq!(a.outcome, Some(Outcome::Relayed));
    assert_eq!(b.outcome, Some(Outcome::Relayed));
    assert_eq!(a.received, origin.response);
    assert_eq!(b.received, origin.response);
    assert_eq!(origin.connections, 2);
    let mut c = Connection::open(REQUEST);
    assert_eq!(c.run(&mut cache, &mut origin), Outcome::ServedFromCache);
    assert_eq!(c.received, origin.response);
    assert_eq!(origin.connections, 2);
}

fn looking_up() -> Handler {
    let (handler, _) = Handler::start();
    let (handler, action) = handler.step(Event::Bytes(REQUEST.to_vec()));
    match action {
        Action::Lookup { key } => assert_eq!(key, "http://origin.test:8000/page"),
        other => panic!("{:?}", other),
    }
    handler
}

fn reading_origin() -> Handler {
    let (handler, action) = looking_up().step(Event::Cached(None));
    assert!(matches!(action, Action::Connect { .. }));
    let (handler, action) = handler.step(Event::Done);
    assert!(matches!(action, Action::SendRequest { .. }));
    let (handler, action) = handler.step(Event::Done);
    assert!(matches!(action, Action::ReadOrigin { limit: 1024 }));
    handler
}

fn aborted(next: (Handler, Action), failure: Failure) {
    assert!(next.0.is_closed());
    match next.1 {
        Action::Close { outcome } => assert_eq!(outcome, Outcome::Aborted(failure)),
        other => panic!("{:?}", other),
    }
}

#[test]
fn a_failed_client_read_aborts() {
    aborted(Handler::start().0.step(Event::Failed), Failure::Read);
    aborted(Handler::start().0.step(Event::Bytes(Vec::new())), Failure::Read);
}

#[test]
fn an_unreachable_cache_aborts() {
    aborted(looking_up().step(Event::Failed), Failure::Cache);
}

#[test]
fn a_failed_write_aborts() {
    let (handler, _) = looking_up().step(Event::Cached(Some(Arc::new(b"x".to_vec()))));
    aborted(handler.step(Event::Failed), Failure::Write);

    let (handler, _) = looking_up().step(Event::Cached(None));
    let (handler, _) = handler.step(Event::Done);
    aborted(handler.step(Event::Failed), Failure::Write);

    let (handler, action) = reading_origin().step(Event::Bytes(b"chunk".to_vec()));
    match action {
        Action::Forward { chunk } => assert_eq!(chunk, b"chunk".to_vec()),
        other => panic!("{:?}", other),
    }
    aborted(handler.step(Event::Failed), Failure::Write);
}

#[test]
fn a_failed_origin_read_aborts_without_a_store() {
    let (handler, _) = reading_origin().step(Event::Bytes(b"partial".to_vec()));
    let (handler, action) = handler.step(Event::Done);
    assert!(matches!(action, Action::ReadOrigin { limit: 1024 }));
    aborted(handler.step(Event::Failed), Failure::Read);
    // Also when nothing has arrived yet.
    aborted(reading_origin().step(Event::Failed), Failure::Read);
}

#[test]
fn a_response_cut_short_by_a_read_failure_is_not_cached() {
    let mut cache = CacheStore::new();
    cache.put("http://other.test/".to_string(), Arc::new(b"other".to_vec()));
    let mut origin = Origin::with_response(response(3000));
    origin.fails_after = Some(2048);
    let mut first = Connection::open(REQUEST);
    assert_eq!(first.run(&mut cache, &mut origin), Outcome::Aborted(Failure::Read));
    assert_eq!(first.received, origin.response[..2048].to_vec());
    assert!(cache.get("http://origin.test:8000/page").is_none());
    assert_eq!(*cache.get("http://other.test/").unwrap(), b"other".to_vec());
    // The next request for the URI goes to the origin again, and is cached
    // once the response comes through whole.
    origin.fails_after = None;
    let mut second = Connection::open(REQUEST);
    assert_eq!(second.run(&mut cache, &mut origin), Outcome::Relayed);
    assert_eq!(second.received, origin.response);
    assert_eq!(origin.connections, 2);
    assert_eq!(*cache.get("http://origin.test:8000/page").unwrap(), origin.response);
}

#[test]
fn a_failed_store_aborts() {
    let (handler, action) = reading_origin().step(Event::Bytes(Vec::new()));
    assert!(matches!(action, Action::Store { .. }));
    aborted(handler.step(Event::Failed), Failure::Cache);
}

#[test]
fn an_event_out_of_turn_aborts() {
    aborted(Handler::start().0.step(Event::Done), Failure::Unexpected);
    aborted(Handler::start().0.step(Event::Cached(None)), Failure::Unexpected);
    aborted(looking_up().step(Event::Done), Failure::Unexpected);
    aborted(looking_up().step(Event::Bytes(b"x".to_vec())), Failure::Unexpected);
    aborted(reading_origin().step(Event::Done), Failure::Unexpected);
    aborted(reading_origin().step(Event::Cached(None)), Failure::Unexpected);
    let (handler, _) = reading_origin().step(Event::Bytes(b"x".to_vec()));
    aborted(handler.step(Event::Bytes(b"y".to_vec())), Failure::Unexpected);
}

#[test]
fn a_closed_connection_stays_closed() {
    let (handler, _) = Handler::start().0.step(Event::Failed);
    let (handler, action) = handler.step(Event::Bytes(REQUEST.to_vec()));
    assert!(handler.is_closed());
    assert!(matches!(action, Action::Close { outcome: Outcome::Aborted(Failure::Unexpected) }));
    aborted(handler.step(Event::Done), Failure::Unexpected);
}
