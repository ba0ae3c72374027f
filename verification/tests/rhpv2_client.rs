//! The full client: connects, calls and datagrams.

use pdn_ax25::rhp::client::{Outcome, Push, Received, Replies, Request, REPLY_LIMIT};
use pdn_ax25::rhp::codec::from_wire_string;
use pdn_ax25::rhp::framing::{read_frame, FrameReader};
use pdn_ax25::rhp::messages::Frame;
use pdn_ax25::rhpv2::{BufferingSink, RhpClient, RhpEventSink};

fn engine_sees(req: &Request) -> Frame {
    let mut reader = FrameReader::new(req.framed().unwrap());
    let body = read_frame(&mut reader).unwrap().unwrap();
    Frame::parse(&body).unwrap()
}

/// The engine's reply to a request, with these members.
fn answer(client: &mut RhpClient, req: &Request, rest: &str) -> Outcome {
    let f = engine_sees(req);
    let id = f.id().unwrap();
    let body = format!(r#"{{"type":"{}Reply","id":{id},{rest}}}"#, f.typ());
    match client.on_frame(body.as_bytes()) {
        Received::Reply(i, frame) => {
            assert_eq!(i, id);
            Outcome::Reply(frame)
        }
        other => panic!("no reply: {other:?}"),
    }
}

fn push(client: &mut RhpClient, body: &str) -> Option<Push> {
    match client.on_frame(body.as_bytes()) {
        Received::Pushed(p) => p,
        other => panic!("no push: {other:?}"),
    }
}

/// A link that was opened and got this handle.
fn opened(client: &mut RhpClient, handle: u64) -> u64 {
    let req = client.open_connect("M0LTE", "GB7RDG");
    let outcome = answer(client, &req, &format!(r#""handle":{handle},"errCode":0,"errText":"Ok""#));
    client.finish_connect(req.id, outcome).unwrap().handle
}

#[test]
fn client_open_correlates_reply_by_id() {
    let mut client = RhpClient::new();
    let req = client.open_connect("M0LTE-1", "GB7RDG");
    let f = engine_sees(&req);
    assert_eq!(f.typ(), "open");
    let id = f.id().unwrap();
    let body =
        format!(r#"{{"type":"openReply","id":{id},"handle":42,"errCode":0,"errText":"Ok"}}"#);
    match client.on_frame(body.as_bytes()) {
        Received::Reply(answered, frame) => {
            let res = client.finish_connect(answered, Outcome::Reply(frame)).unwrap();
            assert_eq!(res.handle, 42);
        }
        other => panic!("{other:?}"),
    }
}

#[test]
fn client_recv_push_routes_to_sink() {
    let mut client = RhpClient::new();
    let mut sink = BufferingSink::new();
    assert_eq!(opened(&mut client, 7), 7);
    match push(&mut client, r#"{"type":"recv","handle":7,"data":"AB","seqno":0}"#) {
        Some(Push::Recv { handle, data }) => sink.on_recv(handle, &data),
        other => panic!("{other:?}"),
    }
    assert_eq!(sink.take(7), vec![0x41, 0x42]);
}

#[test]
fn client_server_error_maps_to_errno() {
    let mut client = RhpClient::new();
    let req = client.open_connect("M0LTE", "GB7RDG");
    let outcome = answer(&mut client, &req, r#""errCode":8,"errText":"Bad family""#);
    let err = client.finish_connect(req.id, outcome).unwrap_err();
    assert_eq!(err.to_errno(), libc::EAFNOSUPPORT);
}

#[test]
fn connect_completes_only_after_status_connected_push() {
    let mut client = RhpClient::new();
    assert_eq!(opened(&mut client, 5), 5);
    // openReply alone must NOT count as connected.
    assert_eq!(client.connect_result(5), None, "connected on openReply alone");
    assert_eq!(client.wait_connected(5, None, 0), None);
    // Other status bits do not count either.
    push(&mut client, r#"{"type":"status","handle":5,"flags":1}"#);
    assert_eq!(client.connect_result(5), None);
    push(&mut client, r#"{"type":"status","handle":5,"flags":2}"#);
    assert_eq!(client.wait_connected(5, None, 0), Some(Ok(())));
    assert_eq!(client.connect_result(5), Some(Ok(())));
}

#[test]
fn connect_fails_on_close_push() {
    let mut client = RhpClient::new();
    assert_eq!(opened(&mut client, 9), 9);
    push(&mut client, r#"{"type":"close","handle":9}"#);
    assert_eq!(client.wait_connected(9, None, 0), Some(Err(libc::ECONNREFUSED)));
    // SO_ERROR drain: reports the errno once, then 0.
    assert_eq!(client.take_connect_error(9), libc::ECONNREFUSED);
    assert_eq!(client.take_connect_error(9), 0);
}

#[test]
fn connect_failure_uses_close_reason_errcode() {
    let mut client = RhpClient::new();
    assert_eq!(opened(&mut client, 4), 4);
    // errCode 15 == No route == EHOSTUNREACH.
    push(&mut client, r#"{"type":"close","handle":4,"errCode":15}"#);
    assert_eq!(client.wait_connected(4, None, 0), Some(Err(libc::EHOSTUNREACH)));
}

#[test]
fn a_status_that_overtakes_the_reply_is_kept() {
    let mut client = RhpClient::new();
    push(&mut client, r#"{"type":"status","handle":6,"flags":3}"#);
    assert_eq!(opened(&mut client, 6), 6);
    assert_eq!(client.connect_result(6), Some(Ok(())));
}

#[test]
fn a_close_after_connect_is_no_failed_connect() {
    let mut client = RhpClient::new();
    assert_eq!(opened(&mut client, 6), 6);
    push(&mut client, r#"{"type":"status","handle":6,"flags":2}"#);
    assert!(matches!(
        push(&mut client, r#"{"type":"close","handle":6}"#),
        Some(Push::Close { handle: 6 })
    ));
    assert_eq!(client.connect_result(6), Some(Ok(())));
    assert_eq!(client.take_connect_error(6), 0);
    // Of a handle that nobody connects nothing is kept.
    push(&mut client, r#"{"type":"close","handle":60}"#);
    assert_eq!(client.connect_result(60), None);
}

#[test]
fn a_wait_whose_time_is_up_ends() {
    let mut client = RhpClient::new();
    assert_eq!(opened(&mut client, 6), 6);
    assert_eq!(client.wait_connected(6, Some(20), 20), Some(Err(libc::ETIMEDOUT)));
    assert_eq!(client.wait_accept(3, None, 0).map(|a| a.is_some()), None);
    assert_eq!(client.wait_accept(3, Some(20), 20).map(|a| a.is_some()), Some(false));
}

#[test]
fn accept_push_surfaces_child_with_peer_callsign() {
    let mut client = RhpClient::new();
    let req = client.socket();
    let outcome = answer(&mut client, &req, r#""handle":3,"errCode":0,"errText":"Ok""#);
    let h = client.finish_socket(req.id, outcome).unwrap();
    let req = client.bind(h, "GB7RDG-1", None);
    assert_eq!(engine_sees(&req).local(), Some("GB7RDG-1"));
    let outcome = answer(&mut client, &req, r#""handle":3,"errCode":0,"errText":"Ok""#);
    client.finish(req.id, outcome).unwrap();
    let req = client.listen(h);
    let outcome = answer(&mut client, &req, r#""handle":3,"errCode":0,"errText":"Ok""#);
    client.finish(req.id, outcome).unwrap();

    // Nothing queued yet.
    assert!(client.try_accept(h).is_none());
    push(
        &mut client,
        r#"{"type":"accept","handle":3,"child":77,"remote":"M0ABC-2","local":"GB7RDG-1"}"#,
    );
    let info = client.wait_accept(h, None, 0).flatten().expect("accept");
    assert_eq!(info.child_handle, 77);
    assert_eq!(info.remote.as_deref(), Some("M0ABC-2"));
    assert_eq!(info.local.as_deref(), Some("GB7RDG-1"));
    assert!(client.try_accept(h).is_none());
}

#[test]
fn calls_are_accepted_in_order_on_their_listener() {
    let mut client = RhpClient::new();
    for (l, c) in [(3, 70), (4, 80), (3, 71), (3, 72)] {
        push(&mut client, &format!(r#"{{"type":"accept","handle":{l},"child":{c}}}"#));
    }
    let next = |client: &mut RhpClient, l| client.try_accept(l).map(|i| i.child_handle);
    assert_eq!(next(&mut client, 3), Some(70));
    assert_eq!(next(&mut client, 3), Some(71));
    assert_eq!(next(&mut client, 4), Some(80));
    assert_eq!(next(&mut client, 3), Some(72));
    assert_eq!(next(&mut client, 3), None);
    // Calls that wait on a handle that is closed are dropped.
    push(&mut client, r#"{"type":"accept","handle":3,"child":73}"#);
    push(&mut client, r#"{"type":"accept","handle":4,"child":83}"#);
    let _ = client.close(3);
    assert_eq!(next(&mut client, 3), None);
    assert_eq!(next(&mut client, 4), Some(83));
}

#[test]
fn closing_a_handle_forgets_its_connect() {
    let mut client = RhpClient::new();
    assert_eq!(opened(&mut client, 6), 6);
    assert_eq!(opened(&mut client, 7), 7);
    push(&mut client, r#"{"type":"status","handle":6,"flags":2}"#);
    push(&mut client, r#"{"type":"status","handle":7,"flags":2}"#);
    let req = client.close(6);
    assert_eq!(engine_sees(&req).handle(), Some(6));
    assert_eq!(client.connect_result(6), None);
    assert_eq!(client.connect_result(7), Some(Ok(())));
}

#[test]
fn socket_dgram_requests_custom_mode_and_sendto_carries_pid_in_data() {
    let mut client = RhpClient::new();
    let req = client.socket_dgram();
    let seen: serde_json::Value = serde_json::from_slice(&req.bytes).unwrap();
    assert_eq!(seen["type"], "socket");
    assert_eq!(seen["mode"], "custom");
    let outcome = answer(&mut client, &req, r#""handle":21,"errCode":0,"errText":"Ok""#);
    let h = client.finish_socket(req.id, outcome).unwrap();
    assert_eq!(h, 21);
    // The caller passes the whole custom payload: PID 0xF0 as data[0].
    let mut wire = vec![0xF0u8];
    wire.extend_from_slice(b"de M0LTE");
    let req = client.sendto(h, "BEACON", "M0LTE-2", &wire);
    let seen: serde_json::Value = serde_json::from_slice(&req.bytes).unwrap();
    assert_eq!(seen["type"], "sendto");
    assert_eq!(seen["remote"], "BEACON");
    assert_eq!(seen["local"], "M0LTE-2");
    assert!(seen.get("pid").is_none(), "custom mode carries no pid field");
    // data[0] is the PID (0xF0 == '\u{F0}'), remainder the info field.
    assert_eq!(seen["data"], "\u{F0}de M0LTE");
}

#[test]
fn stream_sockets_ask_for_stream_mode() {
    let mut client = RhpClient::new();
    let req = client.socket();
    let seen: serde_json::Value = serde_json::from_slice(&req.bytes).unwrap();
    assert_eq!(seen["mode"], "stream");
    assert_eq!(seen["pfam"], "ax25");
    let f = engine_sees(&client.open_listen("M0LTE"));
    assert_eq!((f.typ(), f.remote(), f.status_flags()), ("open", None, 0));
    let f = engine_sees(&client.send(4, b"\r\n", 0).unwrap());
    assert_eq!(from_wire_string(f.data_str().unwrap()), b"\r\n".to_vec());
    assert_eq!(engine_sees(&client.auth("u", "p")).typ(), "auth");
    assert!(client.can_request());
}

#[test]
fn dgram_recv_push_routes_to_on_dgram_with_source_and_pid_in_data() {
    let mut client = RhpClient::new();
    let req = client.socket_dgram();
    let outcome = answer(&mut client, &req, r#""handle":8,"errCode":0,"errText":"Ok""#);
    assert_eq!(client.finish_socket(req.id, outcome).unwrap(), 8);
    let got = push(
        &mut client,
        "{\"type\":\"recv\",\"handle\":8,\"remote\":\"G0ABC-1\",\"local\":\"APRS\",\"port\":\"0\",\"data\":\"\u{F0}!pos\"}",
    );
    match got {
        Some(Push::Dgram { handle, source, dest, data }) => {
            assert_eq!(handle, 8);
            assert_eq!(source.as_deref(), Some("G0ABC-1"));
            assert_eq!(dest.as_deref(), Some("APRS"));
            // data[0] is the PID (0xF0), remainder the info field.
            assert_eq!(data, vec![0xF0, b'!', b'p', b'o', b's']);
        }
        other => panic!("{other:?}"),
    }
}

#[test]
fn transport_drop_faults_blocked_connect_and_accept() {
    let mut client = RhpClient::new();
    let h = opened(&mut client, 11);
    assert_eq!(client.wait_connected(h, None, 0), None);
    client.on_end();
    assert!(client.is_closed());
    assert_eq!(client.wait_connected(h, None, 0), Some(Err(libc::ECONNRESET)));
    assert!(client.wait_accept(999, None, 0).expect("no more waiting").is_none());
    // Also for a handle that was never opened.
    assert_eq!(client.wait_connected(500, None, 0), Some(Err(libc::ECONNRESET)));
}

#[test]
fn the_end_leaves_decided_connects_alone() {
    let mut client = RhpClient::new();
    for h in [1, 2, 3] {
        assert_eq!(opened(&mut client, h), h);
    }
    push(&mut client, r#"{"type":"status","handle":1,"flags":2}"#);
    push(&mut client, r#"{"type":"close","handle":2,"errCode":14}"#);
    client.on_end();
    assert_eq!(client.connect_result(1), Some(Ok(())));
    assert_eq!(client.connect_result(2), Some(Err(libc::EACCES)));
    assert_eq!(client.connect_result(3), Some(Err(libc::ECONNRESET)));
}

#[test]
fn no_other_push_completes_a_connect() {
    let mut client = RhpClient::new();
    let handle = opened(&mut client, 12);
    for body in [
        r#"{"type":"recv","handle":12,"data":"x"}"#,
        r#"{"type":"status","handle":12,"flags":0}"#,
        r#"{"type":"status","handle":13,"flags":2}"#,
        r#"{"type":"accept","handle":12,"child":14}"#,
        r#"{"type":"openReply","id":999,"handle":12,"errCode":0}"#,
    ] {
        push(&mut client, body);
        assert_eq!(client.connect_result(handle), None);
    }
    push(&mut client, r#"{"type":"status","handle":12,"flags":2}"#);
    assert_eq!(client.connect_result(handle), Some(Ok(())));
}

#[test]
fn a_request_waits_until_it_is_answered_or_the_end() {
    let mut client = RhpClient::new();
    let request = client.socket();
    let first = request.id;
    let second = client.socket().id;
    assert!(client.is_waiting(first) && client.is_waiting(second));
    let outcome = answer(&mut client, &request, r#""handle":3,"errCode":0,"errText":"Ok""#);
    assert!(!client.is_waiting(first) && client.is_waiting(second));
    assert_eq!(client.finish_socket(first, outcome).unwrap(), 3);
    client.on_end();
    assert!(!client.is_waiting(second));
}

#[test]
fn a_limit_counts_from_the_start_of_the_wait() {
    let mut client = RhpClient::new();
    let handle = opened(&mut client, 8);
    let other = opened(&mut client, 9);
    // A push on another handle at half the limit does not start it anew.
    assert_eq!(client.wait_connected(handle, Some(100), 0), None);
    push(&mut client, r#"{"type":"status","handle":9,"flags":2}"#);
    assert_eq!(client.connect_result(other), Some(Ok(())));
    assert_eq!(client.wait_connected(handle, Some(100), 50), None);
    assert_eq!(client.wait_connected(handle, Some(100), 99), None);
    push(&mut client, r#"{"type":"close","handle":9}"#);
    assert_eq!(client.wait_connected(handle, Some(100), 100), Some(Err(libc::ETIMEDOUT)));
    assert_eq!(client.wait_connected(handle, None, u128::MAX), None);
    // What was decided counts also where the time is up.
    assert_eq!(client.wait_connected(other, Some(100), 500), Some(Ok(())));
    assert!(client.wait_accept(3, Some(100), 99).is_none());
    assert!(client.wait_accept(3, Some(100), 100).expect("no more waiting").is_none());
}

#[test]
fn a_login_takes_a_user_and_a_password() {
    let mut client = RhpClient::new();
    assert!(client.login(None, None).is_none());
    assert!(client.login(Some("user"), None).is_none());
    assert!(client.login(None, Some("word")).is_none());
    let req = client.login(Some("user"), Some("word")).unwrap();
    assert_eq!(req.id, 1);
    assert_eq!(req.bytes, br#"{"type":"auth","id":1,"user":"user","pass":"word"}"#.to_vec());
}

#[test]
fn a_request_ends_with_its_reply_the_end_or_its_limit() {
    let mut client = RhpClient::new();
    let mut replies = Replies::new();
    let (a, b) = (client.socket(), client.socket());
    assert!(client.reply_step(a.id, None, REPLY_LIMIT, 0).is_none());
    assert!(client.reply_step(a.id, None, REPLY_LIMIT, REPLY_LIMIT - 1).is_none());
    assert!(matches!(
        client.reply_step(a.id, None, REPLY_LIMIT, 30_000_000_000),
        Some(Outcome::Timeout)
    ));
    // A reply counts also where the time is up, and only for its own request.
    match answer(&mut client, &b, r#""handle":8,"errCode":0,"errText":"Ok""#) {
        Outcome::Reply(frame) => replies.put(b.id, frame),
        other => panic!("{other:?}"),
    }
    assert!(replies.take(a.id).is_none());
    let reply = replies.take(b.id);
    assert!(replies.take(b.id).is_none());
    let outcome = client.reply_step(b.id, reply, 10, 20).unwrap();
    assert_eq!(client.finish_socket(b.id, outcome).unwrap(), 8);
    client.on_end();
    let outcome = client.reply_step(a.id, None, REPLY_LIMIT, 0).unwrap();
    let e = client.finish_socket(a.id, outcome).unwrap_err();
    assert_eq!(e.message(), "rhp transport error: rhp connection closed");
}
