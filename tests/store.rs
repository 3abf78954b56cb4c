use kvs::wire::next_frame;
use kvs::wire::FrameState;
use kvs::{
    change_response, client_step, get_outcome, lookup_response, remove_outcome, set_outcome,
    ClientStep, ConnStep, KvsEngine, KvsError, KvsServer, MemEngine, Request, Response,
};

fn s(x: &str) -> String {
    x.to_string()
}

fn get(server: &mut KvsServer<MemEngine>, key: &str) -> Response {
    server.handle(Request::Get { key: s(key) })
}

fn put(server: &mut KvsServer<MemEngine>, key: &str, value: &str) -> Response {
    server.handle(Request::Put { key: s(key), value: s(value) })
}

/// Sends one request through the framing on both sides, as a connection does.
fn round_trip(server: &mut KvsServer<MemEngine>, req: Request) -> Response {
    let bytes = req.encode().unwrap();
    match server.step(&bytes) {
        ConnStep::Reply { response, frame, consumed } => {
            assert_eq!(consumed, bytes.len());
            match next_frame(&frame) {
                FrameState::Ready { end } => {
                    assert_eq!(end, frame.len());
                    let back = Response::decode(&frame[4..end]).unwrap();
                    assert_eq!(back, response);
                    back
                }
                _ => panic!("reply is not one frame"),
            }
        }
        _ => panic!("no reply"),
    }
}

#[test]
fn engine_get_missing_is_none() {
    let e = MemEngine::new();
    assert_eq!(e.get(s("a")), Ok(None));
}

#[test]
fn engine_set_overwrite_remove() {
    let mut e = MemEngine::new();
    assert_eq!(e.set(s("a"), s("1")), Ok(()));
    assert_eq!(e.set(s("b"), s("2")), Ok(()));
    assert_eq!(e.set(s("a"), s("3")), Ok(()));
    assert_eq!(e.get(s("a")), Ok(Some(s("3"))));
    assert_eq!(e.get(s("b")), Ok(Some(s("2"))));
    assert_eq!(e.remove(s("a")), Ok(()));
    assert_eq!(e.get(s("a")), Ok(None));
    assert_eq!(e.remove(s("a")), Err(KvsError::KeyNotFound));
    assert_eq!(e.get(s("b")), Ok(Some(s("2"))));
}

#[test]
fn get_miss_is_not_an_error() {
    let mut server = KvsServer::new(MemEngine::new());
    assert_eq!(get(&mut server, "absent"), Response::Success(None));
}

#[test]
fn remove_miss_is_an_error() {
    let mut server = KvsServer::new(MemEngine::new());
    let r = server.handle(Request::Remove { key: s("absent") });
    assert_eq!(r, Response::Failure(s("Key not found")));
}

#[test]
fn set_then_get() {
    let mut server = KvsServer::new(MemEngine::new());
    assert_eq!(put(&mut server, "k", "v"), Response::Success(None));
    assert_eq!(get(&mut server, "k"), Response::Success(Some(s("v"))));
}

#[test]
fn repeated_get_is_stable() {
    let mut server = KvsServer::new(MemEngine::new());
    put(&mut server, "k", "v");
    let first = get(&mut server, "k");
    assert_eq!(get(&mut server, "k"), first);
    assert_eq!(get(&mut server, "k"), first);
    let miss = get(&mut server, "other");
    assert_eq!(get(&mut server, "other"), miss);
}

#[test]
fn distinct_keys_do_not_interfere() {
    let mut server = KvsServer::new(MemEngine::new());
    for i in 0..8 {
        put(&mut server, &format!("k{}", i), &format!("v{}", i));
    }
    server.handle(Request::Remove { key: s("k3") });
    put(&mut server, "k5", "changed");
    for i in 0..8 {
        let got = get(&mut server, &format!("k{}", i));
        let want = match i {
            3 => None,
            5 => Some(s("changed")),
            _ => Some(format!("v{}", i)),
        };
        assert_eq!(got, Response::Success(want));
    }
}

#[test]
fn two_writes_leave_one_of_them() {
    for order in [["1", "2"], ["2", "1"]] {
        let mut server = KvsServer::new(MemEngine::new());
        put(&mut server, "x", order[0]);
        put(&mut server, "x", order[1]);
        let got = get_outcome(get(&mut server, "x")).unwrap().unwrap();
        assert!(got == "1" || got == "2");
        assert_eq!(got, order[1]);
    }
}

#[test]
fn scenario_set_then_get_over_frames() {
    let mut server = KvsServer::new(MemEngine::new());
    let r = round_trip(&mut server, Request::Put { key: s("a"), value: s("1") });
    assert_eq!(set_outcome(r), Ok(()));
    let r = round_trip(&mut server, Request::Get { key: s("a") });
    assert_eq!(get_outcome(r), Ok(Some(s("1"))));
}

#[test]
fn scenario_remove_missing_over_frames() {
    let mut server = KvsServer::new(MemEngine::new());
    let r = round_trip(&mut server, Request::Remove { key: s("missing") });
    match remove_outcome(r) {
        Err(KvsError::Server(m)) => assert!(m.to_lowercase().contains("not found")),
        other => panic!("expected an error, got {:?}", other),
    }
}

#[test]
fn scenario_two_connections_share_the_store() {
    let mut server = KvsServer::new(MemEngine::new());
    round_trip(&mut server, Request::Put { key: s("x"), value: s("1") });
    round_trip(&mut server, Request::Put { key: s("x"), value: s("2") });
    let r = round_trip(&mut server, Request::Get { key: s("x") });
    assert_eq!(get_outcome(r), Ok(Some(s("2"))));
}

#[test]
fn step_waits_for_a_whole_frame() {
    let mut server = KvsServer::new(MemEngine::new());
    let bytes = Request::Put { key: s("a"), value: s("1") }.encode().unwrap();
    for cut in 0..bytes.len() {
        assert!(matches!(server.step(&bytes[..cut]), ConnStep::Wait));
    }
    assert_eq!(get(&mut server, "a"), Response::Success(None));
}

#[test]
fn step_closes_on_corrupt_stream_and_server_goes_on() {
    let mut server = KvsServer::new(MemEngine::new());
    assert!(matches!(server.step(&[0xFF, 0xFF, 0xFF, 0xFF, 0]), ConnStep::Close));
    assert!(matches!(server.step(&[0, 0, 0, 2, 9, 9]), ConnStep::Close));
    let r = round_trip(&mut server, Request::Put { key: s("a"), value: s("1") });
    assert_eq!(r, Response::Success(None));
}

#[test]
fn step_answers_first_frame_only() {
    let mut server = KvsServer::new(MemEngine::new());
    let mut bytes = Request::Put { key: s("a"), value: s("1") }.encode().unwrap();
    let first = bytes.len();
    bytes.extend(Request::Get { key: s("a") }.encode().unwrap());
    match server.step(&bytes) {
        ConnStep::Reply { response, consumed, .. } => {
            assert_eq!(consumed, first);
            assert_eq!(response, Response::Success(None));
        }
        _ => panic!("no reply"),
    }
    match server.step(&bytes[first..]) {
        ConnStep::Reply { response, .. } => {
            assert_eq!(response, Response::Success(Some(s("1"))));
        }
        _ => panic!("no reply"),
    }
}

#[test]
fn outcomes_map_server_failures() {
    assert_eq!(get_outcome(Response::Success(None)), Ok(None));
    assert_eq!(
        get_outcome(Response::Failure(s("bad"))),
        Err(KvsError::Server(s("bad")))
    );
    assert_eq!(set_outcome(Response::Success(None)), Ok(()));
    assert_eq!(set_outcome(Response::Failure(s("e"))), Err(KvsError::Server(s("e"))));
    assert_eq!(remove_outcome(Response::Success(None)), Ok(()));
    assert_eq!(
        remove_outcome(Response::Failure(s("Key not found"))),
        Err(KvsError::Server(s("Key not found")))
    );
}

#[test]
fn oversized_answer_becomes_a_failure() {
    let mut server = KvsServer::new(MemEngine::new());
    let big = "v".repeat(kvs::wire::MAX_FRAME_LEN);
    assert_eq!(put(&mut server, "big", &big), Response::Success(None));
    let r = round_trip(&mut server, Request::Get { key: s("big") });
    assert_eq!(r, Response::Failure(s("Response too large")));
}

#[test]
fn engine_results_become_responses() {
    assert_eq!(lookup_response(Ok(Some(s("v")))), Response::Success(Some(s("v"))));
    assert_eq!(lookup_response(Ok(None)), Response::Success(None));
    assert_eq!(
        lookup_response(Err(KvsError::Engine(s("disk full")))),
        Response::Failure(s("disk full"))
    );
    assert_eq!(change_response(Ok(())), Response::Success(None));
    assert_eq!(
        change_response(Err(KvsError::KeyNotFound)),
        Response::Failure(s("Key not found"))
    );
    assert_eq!(
        change_response(Err(KvsError::Engine(s("io")))),
        Response::Failure(s("io"))
    );
}

#[test]
fn remove_after_set_then_get_is_none() {
    let mut server = KvsServer::new(MemEngine::new());
    let r = round_trip(&mut server, Request::Put { key: s("k"), value: s("v") });
    assert_eq!(set_outcome(r), Ok(()));
    let r = round_trip(&mut server, Request::Remove { key: s("k") });
    assert_eq!(remove_outcome(r), Ok(()));
    let r = round_trip(&mut server, Request::Get { key: s("k") });
    assert_eq!(get_outcome(r), Ok(None));
}

#[test]
fn remove_missing_reply_frame_carries_key_not_found() {
    let mut server = KvsServer::new(MemEngine::new());
    let bytes = Request::Remove { key: s("absent") }.encode().unwrap();
    match server.step(&bytes) {
        ConnStep::Reply { frame, .. } => {
            assert_eq!(frame, Response::Failure(s("Key not found")).encode().unwrap());
        }
        _ => panic!("no reply"),
    }
}

#[test]
fn client_step_reads_one_response() {
    let mut bytes = Response::Success(Some(s("1"))).encode().unwrap();
    let first = bytes.len();
    assert!(matches!(client_step(&bytes[..first - 1]), ClientStep::Wait));
    assert!(matches!(client_step(&[]), ClientStep::Wait));
    bytes.extend(Response::Success(None).encode().unwrap());
    match client_step(&bytes) {
        ClientStep::Answer { response, consumed } => {
            assert_eq!(consumed, first);
            assert_eq!(response, Response::Success(Some(s("1"))));
        }
        _ => panic!("no answer"),
    }
}

#[test]
fn client_step_fails_on_corrupt_stream() {
    match client_step(&[0xFF, 0, 0, 0]) {
        ClientStep::Fail(e) => assert_eq!(e, KvsError::FrameTooLarge),
        _ => panic!("expected a failure"),
    }
    match client_step(&[0, 0, 0, 1, 7]) {
        ClientStep::Fail(e) => assert_eq!(e, KvsError::Malformed),
        _ => panic!("expected a failure"),
    }
}
