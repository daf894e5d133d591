use std::collections::VecDeque;
use taskmeister::io_router::{
    default_sink, ring_buf_push, route, Drain, IoRouterRequest, PipeRead, Relay, Router,
    RouterReply, Source, Stream, DRAIN_TIMES, IO_ROUTER_READ_BUF_LEN, RING_SLICES,
};

#[test]
fn ring_push_evicts_oldest_when_full() {
    let mut ring: VecDeque<Vec<u8>> = VecDeque::new();
    ring_buf_push(&mut ring, vec![1], 2);
    ring_buf_push(&mut ring, vec![2], 2);
    assert_eq!(ring, VecDeque::from(vec![vec![1], vec![2]]));
    ring_buf_push(&mut ring, vec![3], 2);
    assert_eq!(ring, VecDeque::from(vec![vec![2], vec![3]]));
    ring_buf_push(&mut ring, vec![4, 5], 2);
    assert_eq!(ring, VecDeque::from(vec![vec![3], vec![4, 5]]));
}

#[test]
fn ring_push_with_no_room_keeps_newest_only() {
    let mut ring: VecDeque<Vec<u8>> = VecDeque::new();
    ring_buf_push(&mut ring, vec![1], 0);
    assert_eq!(ring, VecDeque::from(vec![vec![1]]));
    ring_buf_push(&mut ring, vec![2], 0);
    assert_eq!(ring, VecDeque::from(vec![vec![2]]));
}

#[test]
fn ring_constants() {
    assert_eq!(IO_ROUTER_READ_BUF_LEN, 1024);
    assert_eq!(RING_SLICES, 10240);
    assert_eq!(DRAIN_TIMES, 100);
}

#[test]
fn stream_stores_what_was_read_and_says_where_it_goes() {
    let mut stream = Stream::new(true);
    assert!(!stream.is_attached());
    assert_eq!(
        stream.forward(PipeRead::Data(b"one".to_vec())),
        Relay::Pass { forward: false, sink: true }
    );
    stream.set_attached(true);
    assert_eq!(
        stream.forward(PipeRead::Data(b"two".to_vec())),
        Relay::Pass { forward: true, sink: true }
    );
    assert_eq!(stream.forward(PipeRead::Data(vec![])), Relay::Idle);
    assert_eq!(stream.forward(PipeRead::WouldBlock), Relay::Idle);
    assert_eq!(stream.forward(PipeRead::Failed), Relay::Failed);
    assert_eq!(stream.snapshot(), b"onetwo".to_vec());
}

#[test]
fn stream_ring_retains_a_bounded_number_of_slices() {
    let mut stream = Stream::new(false);
    for i in 0..(RING_SLICES + 3) {
        let byte = (i % 251) as u8;
        assert_eq!(
            stream.forward(PipeRead::Data(vec![byte])),
            Relay::Pass { forward: false, sink: false }
        );
    }
    let snapshot = stream.snapshot();
    assert_eq!(snapshot.len(), RING_SLICES);
    assert_eq!(snapshot[0], (3 % 251) as u8);
    assert_eq!(snapshot[RING_SLICES - 1], ((RING_SLICES + 2) % 251) as u8);
}

#[test]
fn drain_allows_a_bounded_number_of_reads() {
    let mut drain = Drain::new();
    let pass = Relay::Pass { forward: true, sink: false };
    let mut reads = 1;
    while drain.again(pass) {
        reads += 1;
    }
    assert_eq!(reads, DRAIN_TIMES + 1);
    assert!(!drain.again(pass));
}

#[test]
fn drain_ends_when_nothing_comes() {
    let mut drain = Drain::new();
    assert!(drain.again(Relay::Pass { forward: true, sink: true }));
    assert!(!drain.again(Relay::Idle));
    let mut other = Drain::new();
    assert!(!other.again(Relay::Failed));
}

#[test]
fn null_sink_discards() {
    assert_eq!(default_sink("null"), None);
    assert_eq!(default_sink("/var/log/out"), Some("/var/log/out"));
    assert_eq!(default_sink("NULL"), Some("NULL"));
    assert_eq!(default_sink(""), Some(""));
}

#[test]
fn attach_conflict_and_unknown_job() {
    let mut router = Router::new();
    assert_eq!(
        router.start_forwarding("counter").unwrap_err().message(),
        "Job not found"
    );
    router.create("counter", false, false);
    assert!(!router.is_forwarding("counter"));
    assert!(router.start_forwarding("counter").is_ok());
    assert!(router.is_forwarding("counter"));
    assert_eq!(
        router.start_forwarding("counter").unwrap_err().message(),
        "JobAlreadyAttached"
    );
}

#[test]
fn attached_client_receives_everything_read_since_attach() {
    let mut router = Router::new();
    router.create("counter", true, false);
    assert_eq!(
        router.forward("counter", Source::Stdout, PipeRead::Data(b"0\n".to_vec())),
        Relay::Pass { forward: false, sink: true }
    );
    router.start_forwarding("counter").unwrap();
    let mut streamed: Vec<u8> = Vec::new();
    for line in ["1\n", "2\n", "3\n"] {
        let relay = router.forward("counter", Source::Stdout, PipeRead::Data(line.as_bytes().to_vec()));
        assert_eq!(relay, Relay::Pass { forward: true, sink: true });
        streamed.extend_from_slice(line.as_bytes());
    }
    assert_eq!(
        router.forward("counter", Source::Stderr, PipeRead::Data(b"oops".to_vec())),
        Relay::Pass { forward: true, sink: false }
    );
    assert_eq!(streamed, b"1\n2\n3\n".to_vec());
    let (out, err) = router.read_buff("counter");
    assert_eq!(out, b"0\n1\n2\n3\n".to_vec());
    assert_eq!(err, b"oops".to_vec());
}

#[test]
fn nothing_is_forwarded_after_stop_forwarding() {
    let mut router = Router::new();
    router.create("counter", false, false);
    router.start_forwarding("counter").unwrap();
    router.stop_forwarding("counter");
    assert!(!router.is_forwarding("counter"));
    for source in [Source::Stdout, Source::Stderr] {
        assert_eq!(
            router.forward("counter", source, PipeRead::Data(b"late".to_vec())),
            Relay::Pass { forward: false, sink: false }
        );
    }
    // The job can be attached again afterwards.
    assert!(router.start_forwarding("counter").is_ok());
}

#[test]
fn create_keeps_existing_streams_and_remove_drops_them() {
    let mut router = Router::new();
    router.create("a", false, false);
    router.forward("a", Source::Stdout, PipeRead::Data(b"kept".to_vec()));
    router.create("a", true, true);
    assert_eq!(router.read_buff("a").0, b"kept".to_vec());
    assert_eq!(
        router.forward("a", Source::Stdout, PipeRead::Data(b"x".to_vec())),
        Relay::Pass { forward: false, sink: false }
    );
    router.remove("a");
    assert_eq!(router.read_buff("a"), (vec![], vec![]));
    assert_eq!(router.forward("a", Source::Stdout, PipeRead::Data(b"x".to_vec())), Relay::Idle);
    router.stop_forwarding("a");
}

#[test]
fn route_serves_each_request() {
    let mut router = Router::new();
    assert!(matches!(
        route(&mut router, IoRouterRequest::Create("a".to_string(), false, false)),
        RouterReply::Done
    ));
    router.forward("a", Source::Stdout, PipeRead::Data(b"out".to_vec()));
    router.forward("a", Source::Stderr, PipeRead::Data(b"err".to_vec()));
    match route(&mut router, IoRouterRequest::ReadBuff("a".to_string())) {
        RouterReply::Buffers(out, err) => {
            assert_eq!(out, b"out".to_vec());
            assert_eq!(err, b"err".to_vec());
        }
        other => panic!("unexpected reply {other:?}"),
    }
    match route(&mut router, IoRouterRequest::ReadBuff("b".to_string())) {
        RouterReply::Buffers(out, err) => {
            assert!(out.is_empty());
            assert!(err.is_empty());
        }
        other => panic!("unexpected reply {other:?}"),
    }
    assert!(matches!(
        route(&mut router, IoRouterRequest::StartForwarding("a".to_string())),
        RouterReply::Forwarding(Ok(()))
    ));
    match route(&mut router, IoRouterRequest::StartForwarding("a".to_string())) {
        RouterReply::Forwarding(Err(e)) => assert_eq!(e.message(), "JobAlreadyAttached"),
        other => panic!("unexpected reply {other:?}"),
    }
    match route(&mut router, IoRouterRequest::StartForwarding("b".to_string())) {
        RouterReply::Forwarding(Err(e)) => assert_eq!(e.message(), "Job not found"),
        other => panic!("unexpected reply {other:?}"),
    }
    assert!(matches!(
        route(&mut router, IoRouterRequest::Input("a".to_string(), vec![1, 2])),
        RouterReply::Input(Some(bytes)) if bytes == vec![1, 2]
    ));
    assert!(matches!(
        route(&mut router, IoRouterRequest::Input("b".to_string(), vec![1, 2])),
        RouterReply::Input(None)
    ));
    assert!(router.is_in_charge("a"));
    assert!(!router.is_in_charge("b"));
    assert!(matches!(
        route(&mut router, IoRouterRequest::StopForwarding("a".to_string())),
        RouterReply::Done
    ));
    assert!(!router.is_forwarding("a"));
    assert!(matches!(
        route(&mut router, IoRouterRequest::Remove("a".to_string())),
        RouterReply::Done
    ));
    assert!(router.start_forwarding("a").is_err());
}

#[test]
fn snapshot_hands_out_the_last_bytes_only() {
    let mut router = Router::new();
    router.create("a", false, false);
    router.forward("a", Source::Stdout, PipeRead::Data(vec![b'x'; 500]));
    router.forward("a", Source::Stdout, PipeRead::Data(vec![b'y'; 500]));
    router.forward("a", Source::Stderr, PipeRead::Data(vec![b'e'; 512]));
    let (out, err) = router.read_buff("a");
    let mut expected = vec![b'x'; 12];
    expected.extend(vec![b'y'; 500]);
    assert_eq!(out, expected);
    assert_eq!(err, vec![b'e'; 512]);
}
