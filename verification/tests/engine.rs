use rpc_core::connection::LoopbackConnection;
use rpc_core::dispose::Dispose;
use rpc_core::payload::{json_decode_string, json_encode_str};
use rpc_core::request::{FinallyType, Request};
use rpc_core::rpc::{CallResult, Incoming, Rpc, TimeoutStep};

fn ready_rpc() -> Rpc {
    let mut rpc = Rpc::new(None);
    rpc.set_timer();
    rpc.set_ready(true);
    rpc
}

/// Deliver every frame queued on `from` to `to`, echoing through the given
/// string handler for subscribed commands, and return the completions seen.
fn pump(
    from: &mut Rpc,
    to: &mut Rpc,
    handler: &dyn Fn(&str, &str) -> Option<String>,
) -> Vec<Incoming> {
    let mut out = Vec::new();
    for frame in from.take_outgoing() {
        let incoming = to.on_recv_package(frame);
        if let Incoming::RunHandler(msg) = &incoming {
            let value = json_decode_string(&msg.data);
            let reply = match value {
                Some(v) => handler(&msg.cmd, &v),
                None => None,
            };
            match reply {
                Some(r) => {
                    to.send_reply(msg, Some(json_encode_str(&r)));
                },
                None => {
                    to.send_reply(msg, None);
                },
            }
        }
        out.push(incoming);
    }
    out
}

/// Finish a matched response through the string codec, recording the value.
fn complete(incoming: Incoming, record: &mut Option<String>) -> Request {
    match incoming {
        Incoming::NeedsDecode { mut request, msg } => {
            match json_decode_string(&msg.data) {
                Some(v) => {
                    *record = Some(v);
                    request.on_decoded(true);
                },
                None => {
                    request.on_decoded(false);
                },
            }
            request
        },
        Incoming::Completed(request) => request,
        other => panic!("expected a matched response, got {}", incoming_name(&other)),
    }
}

fn incoming_name(i: &Incoming) -> &'static str {
    match i {
        Incoming::MalformedFrame => "MalformedFrame",
        Incoming::PongSent => "PongSent",
        Incoming::RunHandler(_) => "RunHandler",
        Incoming::NoSuchCmdSent => "NoSuchCmdSent",
        Incoming::CommandDropped => "CommandDropped",
        Incoming::NeedsDecode { .. } => "NeedsDecode",
        Incoming::Completed(_) => "Completed",
        Incoming::LateResponse => "LateResponse",
        Incoming::UnknownType => "UnknownType",
    }
}

#[test]
fn echo_over_loopback() {
    let mut server = ready_rpc();
    let mut client = ready_rpc();
    server.subscribe("cmd".to_string());

    let mut request = client.cmd("cmd".to_string());
    request.msg("hello");
    request.rsp();
    match request.call_with_rpc(&mut client) {
        CallResult::InFlight { timer, .. } => assert_eq!(timer, Some(3000)),
        CallResult::Finished(_) => panic!("expected the call to stay in flight"),
    }

    let echo = |msg: &str, value: &str| -> Option<String> {
        assert_eq!(msg, "cmd");
        assert_eq!(value, "hello");
        Some("world".to_string())
    };
    pump(&mut client, &mut server, &echo);

    let mut record = None;
    let incoming = pump(&mut server, &mut client, &|_, _| None);
    assert_eq!(incoming.len(), 1);
    let done = complete(incoming.into_iter().next().unwrap(), &mut record);
    assert_eq!(record.as_deref(), Some("world"));
    assert_eq!(done.finally(), Some(FinallyType::Normal));
}

#[test]
fn ping_round_trip() {
    // The dispatcher answers a ping by rewriting the type byte in place, so
    // the pong carries the ping's payload back unchanged.
    let mut server = ready_rpc();
    let mut client = ready_rpc();

    let mut request = client.ping_msg("hello");
    request.rsp();
    let seq = match request.call_with_rpc(&mut client) {
        CallResult::InFlight { seq, .. } => seq,
        CallResult::Finished(_) => panic!("expected the ping to stay in flight"),
    };

    let incoming = pump(&mut client, &mut server, &|_, _| None);
    assert!(matches!(incoming[0], Incoming::PongSent));

    let mut record = None;
    let incoming = pump(&mut server, &mut client, &|_, _| None);
    let done = complete(incoming.into_iter().next().unwrap(), &mut record);
    assert_eq!(record.as_deref(), Some("hello"));
    assert_eq!(done.finally(), Some(FinallyType::Normal));
    assert_eq!(done.seq, seq);
}

#[test]
fn fire_and_forget_ping() {
    let mut server = ready_rpc();
    let mut client = ready_rpc();
    let request = client.ping();
    match request.call_with_rpc(&mut client) {
        CallResult::Finished(done) => assert_eq!(done.finally(), Some(FinallyType::NoNeedRsp)),
        CallResult::InFlight { .. } => panic!("a ping without rsp is fire-and-forget"),
    }
    let incoming = pump(&mut client, &mut server, &|_, _| None);
    assert!(matches!(incoming[0], Incoming::PongSent));
}

#[test]
fn timeout_with_retry() {
    let mut client = ready_rpc();

    let mut request = client.cmd("slow".to_string());
    request.msg("hello");
    request.rsp();
    request.timeout_ms(50);
    request.retry(2);
    let mut seq = match request.call_with_rpc(&mut client) {
        CallResult::InFlight { seq, timer } => {
            assert_eq!(timer, Some(50));
            seq
        },
        CallResult::Finished(_) => panic!("expected the call to stay in flight"),
    };

    // First and second expiry: sent again, a fresh sequence number each time.
    for _ in 0..2 {
        match client.on_timeout(seq) {
            TimeoutStep::Retried { seq: next, timer } => {
                assert_eq!(timer, Some(50));
                assert_ne!(next, seq);
                seq = next;
            },
            _ => panic!("expected a retry"),
        }
    }
    // Third expiry: retries exhausted.
    let done = match client.on_timeout(seq) {
        TimeoutStep::Completed(done) => done,
        _ => panic!("expected the timeout outcome"),
    };
    assert_eq!(done.finally(), Some(FinallyType::Timeout));
    assert_eq!(done.sends, 3);
    assert_eq!(done.timeouts, 3);
    // Exactly three frames went out.
    assert_eq!(client.take_outgoing().len(), 3);
    // A further expiry for a gone entry is a no-op.
    assert!(matches!(client.on_timeout(seq), TimeoutStep::Stale));
}

#[test]
fn unbounded_retry_late_response() {
    let mut server = ready_rpc();
    let mut client = ready_rpc();
    server.subscribe("slow".to_string());

    let mut request = client.cmd("slow".to_string());
    request.msg("hello");
    request.rsp();
    request.retry(-1);
    let mut seq = match request.call_with_rpc(&mut client) {
        CallResult::InFlight { seq, .. } => seq,
        CallResult::Finished(_) => panic!("expected the call to stay in flight"),
    };
    for _ in 0..5 {
        match client.on_timeout(seq) {
            TimeoutStep::Retried { seq: next, .. } => seq = next,
            _ => panic!("unbounded retry never times out"),
        }
    }

    let echo = |_: &str, v: &str| Some(v.to_string());
    pump(&mut client, &mut server, &echo);
    let mut record = None;
    let incoming = pump(&mut server, &mut client, &|_, _| None);
    // Six frames went out and the server answered all six; only the reply
    // to the latest attempt still has a pending entry, the five stale ones
    // are dropped as late.
    let mut done = None;
    for i in incoming {
        match i {
            Incoming::NeedsDecode { .. } => {
                assert!(done.is_none(), "only one completion may happen");
                done = Some(complete(i, &mut record));
            },
            Incoming::LateResponse => {},
            other => panic!("unexpected {}", incoming_name(&other)),
        }
    }
    let done = done.expect("one response must match");
    assert_eq!(done.finally(), Some(FinallyType::Normal));
    assert_eq!(record.as_deref(), Some("hello"));
}

#[test]
fn cancel_via_dispose_before_call() {
    let mut server = ready_rpc();
    let mut client = ready_rpc();
    server.subscribe("cmd".to_string());

    let mut request = client.cmd("cmd".to_string());
    request.msg("hello");
    request.rsp();
    {
        let mut dispose = Dispose::new();
        request.add_to(&mut dispose);
        // The scope ends before the call runs.
        let finished = dispose.dismiss(&mut client);
        assert!(finished.is_empty());
    }
    match request.call_with_rpc(&mut client) {
        CallResult::Finished(done) => {
            assert_eq!(done.finally(), Some(FinallyType::Canceled));
        },
        CallResult::InFlight { .. } => panic!("a dismissed request must not go out"),
    }
    // Nothing was sent, and no handler can ever run.
    assert!(client.take_outgoing().is_empty());
}

#[test]
fn cancel_beats_late_response() {
    let mut server = ready_rpc();
    let mut client = ready_rpc();
    server.subscribe("cmd".to_string());

    let mut request = client.cmd("cmd".to_string());
    let id = request.get_rpc().unwrap();
    request.msg("hello");
    request.rsp();
    assert!(matches!(
        request.call_with_rpc(&mut client),
        CallResult::InFlight { .. }
    ));

    // The cancellation runs before the response comes back.
    let done = client.cancel_request_id(id).expect("the request was in flight");
    assert_eq!(done.finally(), Some(FinallyType::Canceled));

    let echo = |_: &str, v: &str| Some(v.to_string());
    pump(&mut client, &mut server, &echo);
    let incoming = pump(&mut server, &mut client, &|_, _| None);
    // The response finds no pending entry: dropped, no user codec runs.
    assert!(matches!(incoming[0], Incoming::LateResponse));
}

#[test]
fn no_such_cmd_after_unsubscribe() {
    let mut server = ready_rpc();
    let mut client = ready_rpc();
    server.subscribe("x".to_string());
    server.unsubscribe(&"x".to_string());

    let mut request = client.cmd("x".to_string());
    request.msg("hello");
    request.rsp();
    assert!(matches!(
        request.call_with_rpc(&mut client),
        CallResult::InFlight { .. }
    ));

    let unreachable_handler = |_: &str, _: &str| -> Option<String> {
        panic!("no handler may run for an unsubscribed command");
    };
    let incoming = pump(&mut client, &mut server, &unreachable_handler);
    assert!(matches!(incoming[0], Incoming::NoSuchCmdSent));

    let mut record = None;
    let incoming = pump(&mut server, &mut client, &|_, _| None);
    let done = complete(incoming.into_iter().next().unwrap(), &mut record);
    assert_eq!(done.finally(), Some(FinallyType::NoSuchCmd));
    assert!(record.is_none(), "the rsp path must stay untouched");
}

#[test]
fn command_without_need_rsp_is_dropped_when_unknown() {
    let mut server = ready_rpc();
    let mut client = ready_rpc();
    let mut request = client.cmd("x".to_string());
    request.msg("hello");
    match request.call_with_rpc(&mut client) {
        CallResult::Finished(done) => assert_eq!(done.finally(), Some(FinallyType::NoNeedRsp)),
        CallResult::InFlight { .. } => panic!("no rsp was asked"),
    }
    let incoming = pump(&mut client, &mut server, &|_, _| None);
    assert!(matches!(incoming[0], Incoming::CommandDropped));
    assert!(server.take_outgoing().is_empty());
}

#[test]
fn decode_failure_on_response() {
    let mut server = ready_rpc();
    let mut client = ready_rpc();
    server.subscribe("cmd".to_string());

    let mut request = client.cmd("cmd".to_string());
    request.msg("hello");
    request.rsp();
    assert!(matches!(
        request.call_with_rpc(&mut client),
        CallResult::InFlight { .. }
    ));

    // The server answers with bytes that fail the client's codec.
    for frame in client.take_outgoing() {
        match server.on_recv_package(frame) {
            Incoming::RunHandler(msg) => {
                server.send_reply(&msg, Some(b"not json".to_vec()));
            },
            other => panic!("unexpected {}", incoming_name(&other)),
        }
    }

    let mut record = None;
    let incoming = pump(&mut server, &mut client, &|_, _| None);
    let done = complete(incoming.into_iter().next().unwrap(), &mut record);
    assert_eq!(done.finally(), Some(FinallyType::RspSerializeError));
    assert!(record.is_none());
}

#[test]
fn malformed_and_unknown_frames_are_dropped() {
    let mut rpc = ready_rpc();
    assert!(matches!(rpc.on_recv_package(vec![1, 2, 3]), Incoming::MalformedFrame));
    // A frame whose type byte has neither the command nor the response bit.
    let frame = vec![0, 0, 0, 0, 0, 0, 4];
    assert!(matches!(rpc.on_recv_package(frame), Incoming::UnknownType));
    // A response with no pending entry.
    let frame = vec![5, 0, 0, 0, 0, 0, 2];
    assert!(matches!(rpc.on_recv_package(frame), Incoming::LateResponse));
}

#[test]
fn seq_numbers_increase() {
    let mut rpc = Rpc::new(None);
    let a = rpc.make_seq();
    let b = rpc.make_seq();
    let c = rpc.make_seq();
    assert_eq!((a, b, c), (0, 1, 2));
    assert!(a < b && b < c);
}

#[test]
fn call_entry_checks() {
    // Not ready.
    let mut rpc = Rpc::new(None);
    let request = rpc.cmd("c".to_string());
    match request.call_with_rpc(&mut rpc) {
        CallResult::Finished(done) => assert_eq!(done.finally(), Some(FinallyType::RpcNotReady)),
        CallResult::InFlight { .. } => panic!("the facade was not ready"),
    }
    // Canceled before the call.
    rpc.set_ready(true);
    let mut request = rpc.cmd("c".to_string());
    request.cancel();
    match request.call_with_rpc(&mut rpc) {
        CallResult::Finished(done) => assert_eq!(done.finally(), Some(FinallyType::Canceled)),
        CallResult::InFlight { .. } => panic!("a canceled request must not go out"),
    }
    // Canceled, then reset: the call proceeds.
    let mut request = rpc.cmd("c".to_string());
    request.cancel();
    request.reset_cancel();
    match request.call_with_rpc(&mut rpc) {
        CallResult::Finished(done) => assert_eq!(done.finally(), Some(FinallyType::NoNeedRsp)),
        CallResult::InFlight { .. } => panic!("no rsp was asked"),
    }
    // A detached request has no facade to reach.
    let done = Request::new().call();
    assert_eq!(done.finally(), Some(FinallyType::RpcExpired));
}

#[test]
fn dispose_tracks_and_removes() {
    let mut rpc = Rpc::new(None);
    let a = rpc.create_request();
    let b = rpc.create_request();
    let mut dispose = Dispose::new();
    a.add_to(&mut dispose);
    b.add_to(&mut dispose);
    dispose.remove(&a);
    // Only `b` is still registered; dismissing cancels just that identity.
    let finished = dispose.dismiss(&mut rpc);
    assert!(finished.is_empty());
    rpc.set_ready(true);
    match a.call_with_rpc(&mut rpc) {
        CallResult::Finished(done) => assert_eq!(done.finally(), Some(FinallyType::NoNeedRsp)),
        CallResult::InFlight { .. } => panic!("no rsp was asked"),
    }
    match b.call_with_rpc(&mut rpc) {
        CallResult::Finished(done) => assert_eq!(done.finally(), Some(FinallyType::Canceled)),
        CallResult::InFlight { .. } => panic!("b was dismissed"),
    }
}

#[test]
fn future_ret_unwrap() {
    let mut server = ready_rpc();
    let mut client = ready_rpc();
    server.subscribe("cmd".to_string());
    let mut request = client.cmd("cmd".to_string());
    request.msg("hi");
    request.rsp();
    request.call_with_rpc(&mut client);
    let echo = |_: &str, v: &str| Some(v.to_string());
    pump(&mut client, &mut server, &echo);
    let mut record = None;
    let incoming = pump(&mut server, &mut client, &|_, _| None);
    let done = complete(incoming.into_iter().next().unwrap(), &mut record);
    let ret = done.into_future_ret(record.clone().map(String::into_bytes));
    assert_eq!(ret.type_, FinallyType::Normal);
    assert_eq!(ret.unwrap(), b"hi".to_vec());
}

#[test]
fn finally_names() {
    assert_eq!(FinallyType::Normal.to_str(), "normal");
    assert_eq!(FinallyType::NoNeedRsp.to_str(), "no_need_rsp");
    assert_eq!(FinallyType::Timeout.to_str(), "timeout");
    assert_eq!(FinallyType::Canceled.to_str(), "canceled");
    assert_eq!(FinallyType::RpcExpired.to_str(), "rpc_expired");
    assert_eq!(FinallyType::RpcNotReady.to_str(), "rpc_not_ready");
    assert_eq!(FinallyType::RspSerializeError.to_str(), "rsp_serialize_error");
    assert_eq!(FinallyType::NoSuchCmd.to_str(), "no_such_cmd");
}

#[test]
fn string_payload_codec() {
    // The wire text is JSON, not the raw string: the codec is not identity.
    assert_eq!(json_encode_str("hello"), b"\"hello\"".to_vec());
    assert_eq!(json_decode_string(b"\"hello\""), Some("hello".to_string()));
    assert_eq!(json_decode_string(&json_encode_str("wor\"ld")), Some("wor\"ld".to_string()));
    assert_eq!(json_decode_string(b"{"), None);
    assert_eq!(json_decode_string(b"not json"), None);
}

#[test]
fn standalone_request_bound_later() {
    // A request built on its own, then bound to a facade over a loopback
    // pair, behaves like one the facade created.
    let (conn_s, conn_c) = LoopbackConnection::new();
    let mut server = Rpc::new(Some(conn_s));
    server.set_timer();
    server.set_ready(true);
    server.subscribe("cmd".to_string());
    let mut client = Rpc::new(Some(conn_c));
    client.set_timer();
    client.set_ready(true);

    let mut request = Request::new();
    request.rpc(&mut client);
    assert!(request.get_rpc().is_some());
    request.cmd("cmd".to_string());
    request.msg("hello");
    request.rsp();
    assert!(matches!(
        request.call_with_rpc(&mut client),
        CallResult::InFlight { .. }
    ));

    let echo = |_: &str, v: &str| {
        assert_eq!(v, "hello");
        Some("world".to_string())
    };
    pump(&mut client, &mut server, &echo);
    let mut record = None;
    let incoming = pump(&mut server, &mut client, &|_, _| None);
    let done = complete(incoming.into_iter().next().unwrap(), &mut record);
    assert_eq!(record.as_deref(), Some("world"));
    assert_eq!(done.finally(), Some(FinallyType::Normal));
}

#[test]
fn create_with_rpc_binds_identity() {
    let mut rpc = Rpc::new(None);
    let a = Request::create_with_rpc(&mut rpc);
    let b = Request::create_with_rpc(&mut rpc);
    assert!(a.get_rpc().is_some());
    assert!(b.get_rpc().is_some());
    assert_ne!(a.get_rpc(), b.get_rpc());
}

#[test]
fn rpc_simple() {
    // The whole flow in one sitting: echo, unsubscribe, ping, a standalone
    // request, and group cancellation, over a loopback pair.
    let (conn_s, conn_c) = LoopbackConnection::new();
    let mut server = Rpc::new(Some(conn_s));
    server.set_timer();
    server.set_ready(true);
    let mut client = Rpc::new(Some(conn_c));
    client.set_timer();
    client.set_ready(true);

    server.subscribe("cmd".to_string());
    let echo = |cmd: &str, value: &str| {
        assert_eq!(cmd, "cmd");
        assert_eq!(value, "hello");
        Some("world".to_string())
    };

    let mut pass = false;
    let mut request = client.cmd("cmd".to_string());
    request.msg("hello");
    request.rsp();
    request.call_with_rpc(&mut client);
    pump(&mut client, &mut server, &echo);
    let mut record = None;
    let incoming = pump(&mut server, &mut client, &|_, _| None);
    let done = complete(incoming.into_iter().next().unwrap(), &mut record);
    if record.as_deref() == Some("world") && done.finally() == Some(FinallyType::Normal) {
        pass = true;
    }
    assert!(pass);

    // unsubscribe
    server.subscribe("x".to_string());
    server.unsubscribe(&"x".to_string());

    // ping
    let mut pass = false;
    let mut request = client.ping_msg("hello");
    request.rsp();
    request.call_with_rpc(&mut client);
    pump(&mut client, &mut server, &echo);
    let mut record = None;
    let incoming = pump(&mut server, &mut client, &|_, _| None);
    let done = complete(incoming.into_iter().next().unwrap(), &mut record);
    if done.finally() == Some(FinallyType::Normal) {
        pass = true;
    }
    assert!(pass);

    // a standalone request, called through the facade
    let mut pass = false;
    let mut request = Request::new();
    request.cmd("cmd".to_string());
    request.msg("hello");
    request.rsp();
    request.rpc(&mut client);
    request.call_with_rpc(&mut client);
    pump(&mut client, &mut server, &echo);
    let mut record = None;
    let incoming = pump(&mut server, &mut client, &|_, _| None);
    let done = complete(incoming.into_iter().next().unwrap(), &mut record);
    if record.as_deref() == Some("world") && done.finally() == Some(FinallyType::Normal) {
        pass = true;
    }
    assert!(pass);

    // group cancellation: the handler must never run again
    let unreachable_handler = |_: &str, _: &str| -> Option<String> {
        panic!("the canceled request must not reach the handler");
    };
    let mut pass = false;
    let mut request = client.cmd("cmd".to_string());
    request.msg("hello");
    request.rsp();
    {
        let mut dispose = Dispose::new();
        request.add_to(&mut dispose);
        dispose.dismiss(&mut client);
    }
    match request.call_with_rpc(&mut client) {
        CallResult::Finished(done) => {
            if done.finally() == Some(FinallyType::Canceled) {
                pass = true;
            }
        },
        CallResult::InFlight { .. } => {},
    }
    pump(&mut client, &mut server, &unreachable_handler);
    assert!(pass);
}

#[test]
fn dispose_cancels_in_flight() {
    let mut client = ready_rpc();
    let mut request = client.cmd("cmd".to_string());
    request.msg("hello");
    request.rsp();
    let mut dispose = Dispose::new();
    request.add_to(&mut dispose);
    let seq = match request.call_with_rpc(&mut client) {
        CallResult::InFlight { seq, .. } => seq,
        CallResult::Finished(_) => panic!("expected the call to stay in flight"),
    };
    let finished = dispose.dismiss(&mut client);
    assert_eq!(finished.len(), 1);
    assert_eq!(finished[0].finally(), Some(FinallyType::Canceled));
    assert_eq!(finished[0].seq, seq);
    // The pending entry is gone: a later expiry is a no-op.
    assert!(matches!(client.on_timeout(seq), TimeoutStep::Stale));
}
