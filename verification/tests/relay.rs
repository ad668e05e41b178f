use cache_proxy::relay::{Relay, MAX_CACHE_SIZE, ORIGIN_BUFFER_SIZE};

#[test]
fn the_limits_are_as_documented() {
    assert_eq!(MAX_CACHE_SIZE, 1_048_576);
    assert_eq!(ORIGIN_BUFFER_SIZE, 1024);
}

#[test]
fn nothing_relayed_is_an_empty_candidate() {
    assert_eq!(Relay::new().finish(), Some(Vec::new()));
}

#[test]
fn chunks_are_joined_in_order() {
    let mut relay = Relay::new();
    relay.push(b"HTTP/1.0 200 OK\r\n");
    relay.push(b"\r\n");
    relay.push(b"");
    relay.push(b"hello");
    assert_eq!(relay.finish(), Some(b"HTTP/1.0 200 OK\r\n\r\nhello".to_vec()));
}

#[test]
fn a_response_of_exactly_the_ceiling_is_a_candidate() {
    let mut relay = Relay::new();
    let chunk = vec![7u8; 1024];
    for _ in 0..1024 {
        relay.push(&chunk);
    }
    let body = relay.finish().expect("within the ceiling");
    assert_eq!(body.len(), MAX_CACHE_SIZE);
    assert!(body.iter().all(|b| *b == 7));
}

#[test]
fn one_byte_over_the_ceiling_is_no_candidate() {
    let mut relay = Relay::new();
    relay.push(&vec![1u8; MAX_CACHE_SIZE]);
    relay.push(&[2u8]);
    assert_eq!(relay.finish(), None);
}

#[test]
fn a_single_oversized_chunk_is_no_candidate() {
    let mut relay = Relay::new();
    relay.push(&vec![1u8; MAX_CACHE_SIZE + 1]);
    assert_eq!(relay.finish(), None);
}

#[test]
fn what_was_given_up_stays_given_up() {
    let mut relay = Relay::new();
    relay.push(&vec![1u8; MAX_CACHE_SIZE]);
    relay.push(&[2u8, 3u8]);
    relay.push(b"");
    relay.push(b"small");
    assert_eq!(relay.finish(), None);
}
