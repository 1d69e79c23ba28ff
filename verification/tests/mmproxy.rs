use udppp::{
    cur_timestamp, forward_mmproxy, forward_mmproxy_at, Action, DecodeError, Endpoint, Event, Ipv4,
    Transparent, Worker,
};

fn balancer() -> Endpoint {
    Endpoint::new(192, 0, 2, 10, 33000)
}

fn original() -> Endpoint {
    Endpoint::new(203, 0, 113, 9, 51000)
}

fn stateful() -> Transparent {
    Transparent { stateful: true }
}

fn single_shot() -> Transparent {
    Transparent { stateful: false }
}

fn hello() -> Vec<u8> {
    b"PROXY TCP4 203.0.113.9 203.0.113.1 51000 9000\r\nhello".to_vec()
}

fn datagram(payload: Vec<u8>, upstream: Option<u32>) -> Event<u32, Vec<u8>> {
    Event::Datagram { from: balancer(), payload, upstream }
}

#[test]
fn mmproxy_scenario() {
    let mut worker: Worker<u32> = Worker::new();
    let action = forward_mmproxy_at(&mut worker, &stateful(), datagram(hello(), None), 10);
    assert_eq!(action, Action::Bind { from: balancer(), payload: hello() });

    let action = forward_mmproxy_at(&mut worker, &stateful(), datagram(hello(), Some(4)), 10);
    assert_eq!(
        action,
        Action::Send {
            client: original(),
            datagram: b"hello".to_vec(),
            spoof: Some(Ipv4::new(203, 0, 113, 9)),
            reply_to: balancer(),
            listen: true,
            spare: None,
        }
    );
    // The session belongs to the original client, not to the balancer.
    assert!(worker.sessions.contains(&original()));
    assert!(!worker.sessions.contains(&balancer()));
    assert_eq!(worker.sessions.handle(&original()), Some(&4));
    assert_eq!(worker.sessions.last_activity(&original()), Some(10));
}

#[test]
fn later_datagram_of_the_same_client_reuses_the_session() {
    let mut worker: Worker<u32> = Worker::new();
    forward_mmproxy_at(&mut worker, &stateful(), datagram(hello(), Some(4)), 10);
    let other_balancer = Endpoint::new(192, 0, 2, 11, 33001);
    let event = Event::Datagram { from: other_balancer, payload: hello(), upstream: None };
    let action = forward_mmproxy_at(&mut worker, &stateful(), event, 20);
    assert_eq!(
        action,
        Action::Send {
            client: original(),
            datagram: b"hello".to_vec(),
            spoof: Some(Ipv4::new(203, 0, 113, 9)),
            reply_to: other_balancer,
            listen: false,
            spare: None,
        }
    );
    assert_eq!(worker.sessions.last_activity(&original()), Some(20));
}

#[test]
fn mmproxy_datagram_at_an_earlier_clock_reading_does_not_set_the_session_back() {
    let mut worker: Worker<u32> = Worker::new();
    forward_mmproxy_at(&mut worker, &stateful(), datagram(hello(), Some(4)), 150);
    let action = forward_mmproxy_at(&mut worker, &stateful(), datagram(hello(), None), 120);
    assert!(matches!(action, Action::Send { listen: false, spare: None, .. }));
    assert_eq!(worker.sessions.last_activity(&original()), Some(150));
    assert_eq!(worker.sessions.handle(&original()), Some(&4));
    forward_mmproxy_at(&mut worker, &stateful(), datagram(b"no header".to_vec(), None), 500);
    assert_eq!(worker.sessions.last_activity(&original()), Some(150));
}

#[test]
fn sloppy_text_header_is_rejected() {
    let mut worker: Worker<u32> = Worker::new();
    let payload = b"PROXY TXX4 203.0.113.9 203.0.113.1 51000 9000\r\nhello".to_vec();
    let action = forward_mmproxy_at(&mut worker, &stateful(), datagram(payload, None), 0);
    assert_eq!(
        action,
        Action::Reject { from: balancer(), reason: DecodeError::Malformed, spare: None }
    );
    assert!(!worker.sessions.contains(&original()));
}

#[test]
fn binary_header_is_unwrapped_too() {
    let mut worker: Worker<u32> = Worker::new();
    let mut payload = udppp::encode_header(original(), Endpoint::new(203, 0, 113, 1, 9000));
    payload.extend_from_slice(b"hello");
    let action = forward_mmproxy_at(&mut worker, &stateful(), datagram(payload, Some(1)), 0);
    assert_eq!(
        action,
        Action::Send {
            client: original(),
            datagram: b"hello".to_vec(),
            spoof: Some(Ipv4::new(203, 0, 113, 9)),
            reply_to: balancer(),
            listen: true,
            spare: None,
        }
    );
}

#[test]
fn header_without_payload_sends_an_empty_datagram() {
    let mut worker: Worker<u32> = Worker::new();
    let payload = b"PROXY TCP4 203.0.113.9 203.0.113.1 51000 9000\r\n".to_vec();
    match forward_mmproxy_at(&mut worker, &stateful(), datagram(payload, Some(1)), 0) {
        Action::Send { datagram, .. } => assert!(datagram.is_empty()),
        other => panic!("unexpected action {:?}", other),
    }
}

#[test]
fn malformed_datagram_is_dropped_without_affecting_sessions() {
    let mut worker: Worker<u32> = Worker::new();
    forward_mmproxy_at(&mut worker, &stateful(), datagram(hello(), Some(4)), 10);
    let reply = Event::Reply { to: balancer(), payload: b"waiting".to_vec() };
    forward_mmproxy_at(&mut worker, &stateful(), reply, 11);

    let action = forward_mmproxy_at(&mut worker, &stateful(), datagram(b"garbage!".to_vec(), None), 50);
    assert_eq!(
        action,
        Action::Reject { from: balancer(), reason: DecodeError::Malformed, spare: None }
    );
    assert!(worker.sessions.contains(&original()));
    assert!(!worker.sessions.contains(&balancer()));
    assert_eq!(worker.sessions.last_activity(&original()), Some(10));
    assert_eq!(worker.sessions.handle(&original()), Some(&4));
    assert_eq!(worker.downstream.len(), 1);
}

#[test]
fn each_decode_failure_is_reported_with_its_reason() {
    let mut worker: Worker<u32> = Worker::new();
    let cases: [(&[u8], DecodeError); 3] = [
        (b"PROXY TCP6 ::1 ::2 1 2\r\nhello", DecodeError::Unsupported),
        (b"PROXY TCP4 1.2.3.4 5.6.7.8 1 22\r", DecodeError::Truncated),
        (b"PROXY TCP4 1.2.3.4", DecodeError::Malformed),
    ];
    for (payload, reason) in cases {
        let action =
            forward_mmproxy_at(&mut worker, &stateful(), datagram(payload.to_vec(), Some(8)), 0);
        assert_eq!(action, Action::Reject { from: balancer(), reason, spare: Some(8) });
    }
    assert!(!worker.sessions.contains(&balancer()));
}

#[test]
fn single_shot_keeps_no_state() {
    let mut worker: Worker<u32> = Worker::new();
    let action = forward_mmproxy_at(&mut worker, &single_shot(), datagram(hello(), None), 10);
    assert_eq!(
        action,
        Action::SendOnce {
            source: Ipv4::new(203, 0, 113, 9),
            datagram: b"hello".to_vec(),
            spare: None,
        }
    );
    assert!(!worker.sessions.contains(&original()));
    assert!(!worker.sessions.contains(&balancer()));
    let action = forward_mmproxy_at(&mut worker, &single_shot(), datagram(b"nope".to_vec(), None), 10);
    assert_eq!(
        action,
        Action::Reject { from: balancer(), reason: DecodeError::Malformed, spare: None }
    );
}

#[test]
fn backend_reply_goes_back_through_the_balancer() {
    let mut worker: Worker<u32> = Worker::new();
    let reply_to = match forward_mmproxy_at(&mut worker, &stateful(), datagram(hello(), Some(4)), 10)
    {
        Action::Send { reply_to, listen: true, .. } => reply_to,
        other => panic!("unexpected action {:?}", other),
    };
    let reply = Event::Reply { to: reply_to, payload: b"world".to_vec() };
    assert_eq!(forward_mmproxy_at(&mut worker, &stateful(), reply, 11), Action::Queued);
    assert_eq!(
        forward_mmproxy_at(&mut worker, &stateful(), Event::Writable, 11),
        Action::Write { to: balancer(), payload: b"world".to_vec() }
    );
    assert_eq!(forward_mmproxy_at(&mut worker, &stateful(), Event::Writable, 11), Action::Rest);
}

#[test]
fn idle_session_of_the_original_client_is_evicted() {
    let mut worker: Worker<u32> = Worker::new();
    forward_mmproxy_at(&mut worker, &stateful(), datagram(hello(), Some(4)), 10);
    let idle = || Event::Idle { client: original() };
    assert_eq!(
        forward_mmproxy_at(&mut worker, &stateful(), idle(), 189),
        Action::Listen { client: original() }
    );
    assert_eq!(
        forward_mmproxy_at(&mut worker, &stateful(), idle(), 190),
        Action::Close { client: original() }
    );
    assert!(!worker.sessions.contains(&original()));
}

#[test]
fn forward_mmproxy_stamps_the_session_with_the_clock() {
    let mut worker: Worker<u32> = Worker::new();
    let before = cur_timestamp();
    let action = forward_mmproxy(&mut worker, &stateful(), datagram(hello(), Some(4)));
    let after = cur_timestamp();
    assert!(matches!(action, Action::Send { listen: true, .. }));
    let stamped = worker.sessions.last_activity(&original()).unwrap();
    assert!(before <= stamped && stamped <= after);
}
