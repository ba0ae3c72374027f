//! The base client: requests, replies, pushes and chunks.

use pdn_ax25::rhp::client::{
    check_ok, default_addr, deliver, dispatch_push, BufferingSink, NullSink, Outcome, Push,
    Received, Request, RhpClient, RhpError, RhpEventSink,
};
use pdn_ax25::rhp::codec::from_wire_string;
use pdn_ax25::rhp::framing::{read_frame, FrameError, FrameReader, MAX_FRAME};
use pdn_ax25::rhp::messages::{Frame, MAX_SEND_CHUNK};

/// The frame that a request becomes for the engine.
fn engine_sees(req: &Request) -> Frame {
    let mut reader = FrameReader::new(req.framed().unwrap());
    let body = read_frame(&mut reader).unwrap().unwrap();
    Frame::parse(&body).unwrap()
}

/// Hands a reply to the client, and settles it as the outcome of its request.
fn reply(client: &mut RhpClient, body: &str) -> (u64, Outcome) {
    match client.on_frame(body.as_bytes()) {
        Received::Reply(id, frame) => (id, Outcome::Reply(frame)),
        other => panic!("no reply: {other:?}"),
    }
}

#[test]
fn base_open_correlates_reply_by_id() {
    let mut client = RhpClient::new();
    let req = client.open_connect("M0LTE-1", "GB7RDG");
    let f = engine_sees(&req);
    assert_eq!(f.typ(), "open");
    let id = f.id().unwrap();
    let body = format!(r#"{{"type":"openReply","id":{id},"handle":42,"errCode":0,"errText":"Ok"}}"#);
    let (answered, outcome) = reply(&mut client, &body);
    assert_eq!(answered, req.id);
    let res = client.finish_open(req.id, outcome).unwrap();
    assert_eq!(res.handle, 42);
    assert_eq!(res.errcode, 0);
    assert_eq!(res.errtext.as_deref(), Some("Ok"));
}

#[test]
fn base_recv_push_routes_to_sink() {
    let mut client = RhpClient::new();
    let mut sink = BufferingSink::new();
    let req = client.open_connect("M0LTE", "GB7RDG");
    let body = format!(
        r#"{{"type":"openReply","id":{},"handle":7,"errCode":0,"errText":"Ok"}}"#,
        req.id
    );
    let (_, outcome) = reply(&mut client, &body);
    assert_eq!(client.finish_open(req.id, outcome).unwrap().handle, 7);
    match client.on_frame(br#"{"type":"recv","handle":7,"data":"AB","seqno":0}"#) {
        Received::Pushed(Some(Push::Recv { handle, data })) => sink.on_recv(handle, &data),
        other => panic!("no recv: {other:?}"),
    }
    assert_eq!(sink.take(7), vec![0x41, 0x42]);
}

#[test]
fn base_server_error_maps_to_errno() {
    let mut client = RhpClient::new();
    let req = client.open_connect("M0LTE", "GB7RDG");
    let body =
        format!(r#"{{"type":"openReply","id":{},"errCode":8,"errText":"Bad family"}}"#, req.id);
    let (_, outcome) = reply(&mut client, &body);
    let err = client.finish_open(req.id, outcome).unwrap_err();
    assert_eq!(err.to_errno(), libc::EAFNOSUPPORT);
    assert_eq!(err.message(), "rhp server error 8 (Bad family)");
}

#[test]
fn errors_have_their_errno_and_text() {
    let io = RhpError::Io("broken pipe".to_string());
    assert_eq!(io.to_errno(), libc::EIO);
    assert_eq!(io.message(), "rhp transport error: broken pipe");
    assert_eq!(RhpError::Timeout.to_errno(), libc::ETIMEDOUT);
    assert_eq!(RhpError::Timeout.message(), "rhp request timed out");
    let server = RhpError::Server { errcode: -12, errtext: None };
    assert_eq!(server.to_errno(), libc::EIO);
    assert_eq!(server.message(), "rhp server error -12 (?)");
    let lowest = RhpError::Server { errcode: i64::MIN, errtext: None };
    assert_eq!(lowest.message(), "rhp server error -9223372036854775808 (?)");
}

#[test]
fn outcomes_without_a_reply_are_errors() {
    let mut client = RhpClient::new();
    let a = client.close(1);
    let b = client.close(2);
    let c = client.close(3);
    assert!(matches!(client.finish(a.id, Outcome::Timeout), Err(RhpError::Timeout)));
    match client.finish(b.id, Outcome::Disconnected) {
        Err(RhpError::Io(text)) => assert_eq!(text, "rhp connection closed"),
        other => panic!("{other:?}"),
    }
    match client.finish(c.id, Outcome::WriteFailed("full".to_string())) {
        Err(RhpError::Io(text)) => assert_eq!(text, "full"),
        other => panic!("{other:?}"),
    }
    // A request that was settled waits no longer: a late reply is no reply.
    let late = format!(r#"{{"id":{},"errCode":0}}"#, a.id);
    assert!(matches!(client.on_frame(late.as_bytes()), Received::Pushed(None)));
}

#[test]
fn ids_grow_from_one() {
    let mut client = RhpClient::new();
    assert!(client.can_request());
    let ids: Vec<u64> = vec![
        client.auth("u", "p").id,
        client.open_connect("A", "B").id,
        client.open_listen("A").id,
        client.send_chunk(1, b"x").id,
        client.close(1).id,
        client.socket().id,
        client.bind(1, "A", None).id,
        client.listen(1).id,
    ];
    assert_eq!(ids, vec![1, 2, 3, 4, 5, 6, 7, 8]);
}

#[test]
fn every_request_says_what_it_asks_for() {
    let mut client = RhpClient::new();
    let f = engine_sees(&client.auth("user", "secret"));
    assert_eq!(f.typ(), "auth");
    let f = engine_sees(&client.open_connect("M0LTE", "GB7RDG"));
    assert_eq!((f.typ(), f.local(), f.remote()), ("open", Some("M0LTE"), Some("GB7RDG")));
    assert_eq!(f.status_flags(), 128);
    let f = engine_sees(&client.open_listen("M0LTE"));
    assert_eq!((f.typ(), f.local(), f.remote()), ("open", Some("M0LTE"), None));
    assert_eq!(f.status_flags(), 0);
    let f = engine_sees(&client.send_chunk(9, &[0, 255, 34]));
    assert_eq!((f.typ(), f.handle()), ("send", Some(9)));
    assert_eq!(from_wire_string(f.data_str().unwrap()), vec![0, 255, 34]);
    let f = engine_sees(&client.close(9));
    assert_eq!((f.typ(), f.handle()), ("close", Some(9)));
    let f = engine_sees(&client.socket());
    assert_eq!((f.typ(), f.handle()), ("socket", None));
    let f = engine_sees(&client.bind(9, "M0LTE", Some("1")));
    assert_eq!((f.typ(), f.handle(), f.local()), ("bind", Some(9), Some("M0LTE")));
    let f = engine_sees(&client.listen(9));
    assert_eq!((f.typ(), f.handle()), ("listen", Some(9)));
}

#[test]
fn textual_ok_counts_whatever_the_code() {
    let ok = Frame::parse(br#"{"errCode":42,"errText":"oK"}"#).unwrap();
    assert!(check_ok(&ok).is_ok());
    let bare = Frame::parse(br#"{"errCode":0,"errText":"whatever"}"#).unwrap();
    assert!(check_ok(&bare).is_ok());
    let bad = Frame::parse(br#"{"errCode":3}"#).unwrap();
    match check_ok(&bad) {
        Err(RhpError::Server { errcode, errtext }) => {
            assert_eq!(errcode, 3);
            assert_eq!(errtext, None);
        }
        other => panic!("{other:?}"),
    }
}

#[test]
fn replies_without_a_handle_are_errors() {
    let mut client = RhpClient::new();
    let open = client.open_listen("A");
    let (_, outcome) = reply(&mut client, &format!(r#"{{"id":{}}}"#, open.id));
    let e = client.finish_open(open.id, outcome).unwrap_err();
    assert_eq!(e.message(), "rhp server error 1 (openReply missing handle)");
    let socket = client.socket();
    let (_, outcome) = reply(&mut client, &format!(r#"{{"id":{}}}"#, socket.id));
    let e = client.finish_socket(socket.id, outcome).unwrap_err();
    assert_eq!(e.message(), "rhp server error 1 (socketReply missing handle)");
    assert_eq!(e.to_errno(), libc::EIO);
    let socket = client.socket();
    let (_, outcome) = reply(&mut client, &format!(r#"{{"id":{},"handle":6}}"#, socket.id));
    assert_eq!(client.finish_socket(socket.id, outcome).unwrap(), 6);
}

#[test]
fn only_the_request_with_the_id_is_answered() {
    let mut client = RhpClient::new();
    let a = client.close(1);
    let b = client.close(2);
    let body = format!(r#"{{"id":{}}}"#, b.id);
    assert!(matches!(client.on_frame(body.as_bytes()), Received::Reply(id, _) if id == b.id));
    // The same id does not answer twice; the other request still waits.
    assert!(matches!(client.on_frame(body.as_bytes()), Received::Pushed(None)));
    let body = format!(r#"{{"id":{}}}"#, a.id);
    assert!(matches!(client.on_frame(body.as_bytes()), Received::Reply(id, _) if id == a.id));
}

#[test]
fn undecodable_frames_are_skipped() {
    let mut client = RhpClient::new();
    let req = client.close(1);
    assert!(matches!(client.on_frame(b"not json"), Received::Undecodable));
    let body = format!(r#"{{"id":{}}}"#, req.id);
    assert!(matches!(client.on_frame(body.as_bytes()), Received::Reply(_, _)));
}

#[test]
fn the_end_closes_and_leaves_nothing_waiting() {
    let mut client = RhpClient::new();
    let req = client.close(1);
    assert!(!client.is_closed());
    client.on_end();
    assert!(client.is_closed());
    let body = format!(r#"{{"id":{}}}"#, req.id);
    assert!(matches!(client.on_frame(body.as_bytes()), Received::Pushed(None)));
}

#[test]
fn base_pushes_are_read_by_type() {
    let push = |body: &[u8]| dispatch_push(&Frame::parse(body).unwrap());
    match push(br#"{"type":"accept","handle":3,"child":77,"remote":"M0ABC-2"}"#) {
        Some(Push::Accept { listener, child, remote, local }) => {
            assert_eq!((listener, child), (3, 77));
            assert_eq!(remote.as_deref(), Some("M0ABC-2"));
            assert_eq!(local, None);
        }
        other => panic!("{other:?}"),
    }
    assert!(push(br#"{"type":"accept","handle":3}"#).is_none());
    // The status bits, and only without them the error code.
    for (body, bits) in [
        (r#"{"type":"status","handle":3,"flags":4,"errCode":2}"#, 4),
        (r#"{"type":"status","handle":3,"flags":2}"#, 2),
        (r#"{"type":"status","handle":3,"status":2}"#, 2),
        (r#"{"type":"status","handle":3,"errCode":2}"#, 2),
    ] {
        match push(body.as_bytes()) {
            Some(Push::Status { handle, flags }) => assert_eq!((handle, flags), (3, bits)),
            other => panic!("{other:?}"),
        }
    }
    assert!(matches!(push(br#"{"type":"close","handle":3}"#), Some(Push::Close { handle: 3 })));
    match push(br#"{"type":"recv","handle":3,"remote":"M0ABC"}"#) {
        Some(Push::Recv { handle, data }) => {
            assert_eq!(handle, 3);
            assert!(data.is_empty());
        }
        other => panic!("{other:?}"),
    }
    assert!(push(br#"{"type":"recv"}"#).is_none());
    assert!(push(br#"{"type":"news","handle":3}"#).is_none());
    assert!(push(br#"{"handle":3}"#).is_none());
}

/// The payloads that `send` asks to be sent, one after the other.
fn sent(client: &mut RhpClient, data: &[u8]) -> Vec<Vec<u8>> {
    let mut out = Vec::new();
    while let Some(req) = client.send(6, data, out.len()) {
        let f = engine_sees(&req);
        assert_eq!((f.typ(), f.handle(), f.id()), ("send", Some(6), Some(req.id)));
        out.push(from_wire_string(f.data_str().unwrap()));
    }
    out
}

#[test]
fn data_is_sent_in_chunks() {
    let mut client = RhpClient::new();
    assert_eq!(sent(&mut client, b""), vec![Vec::<u8>::new()]);
    assert_eq!(sent(&mut client, b"abc"), vec![b"abc".to_vec()]);
    let exact = vec![7u8; MAX_SEND_CHUNK];
    assert_eq!(sent(&mut client, &exact), vec![exact.clone()]);
    let data: Vec<u8> = (0..MAX_SEND_CHUNK * 2 + 5).map(|i| (i % 251) as u8).collect();
    let chunks = sent(&mut client, &data);
    let lens: Vec<usize> = chunks.iter().map(|c| c.len()).collect();
    assert_eq!(lens, vec![MAX_SEND_CHUNK, MAX_SEND_CHUNK, 5]);
    assert_eq!(chunks.concat(), data);
    // Nothing is sent behind the last chunk.
    assert!(client.send(6, b"abc", usize::MAX).is_none());
}

#[test]
fn the_worst_chunk_fits_a_frame() {
    let mut client = RhpClient::new();
    let req = client.send_chunk(u64::MAX, &vec![0u8; MAX_SEND_CHUNK]);
    assert!(req.bytes.len() <= MAX_FRAME);
    assert!(req.framed().is_ok());
    // More than a chunk may not fit.
    let req = client.send_chunk(1, &vec![0u8; 11_000]);
    assert!(matches!(req.framed(), Err(FrameError::TooLarge(n)) if n == req.bytes.len()));
}

#[test]
fn sinks_buffer_or_ignore() {
    let mut sink = BufferingSink::new();
    assert_eq!(sink.take(1), Vec::<u8>::new());
    assert!(!sink.is_eof(1));
    sink.on_recv(1, b"ab");
    sink.on_recv(2, b"x");
    sink.on_recv(1, b"c");
    sink.on_close(1);
    sink.on_status(1, 2);
    sink.on_disconnect();
    assert!(sink.is_eof(1));
    assert!(!sink.is_eof(2));
    assert_eq!(sink.take(1), b"abc".to_vec());
    assert_eq!(sink.take(1), Vec::<u8>::new());
    assert!(sink.is_eof(1));
    assert_eq!(sink.take(2), b"x".to_vec());
    let mut null = NullSink;
    null.on_recv(1, b"x");
    null.on_dgram(1, None, None, b"x");
    null.on_accept(1, 2, None, None);
}

#[test]
fn the_engine_address_has_a_default() {
    assert_eq!(default_addr(None), "127.0.0.1:9000");
    assert_eq!(default_addr(Some("10.0.0.1:9001".to_string())), "10.0.0.1:9001");
}

/// A sink that notes every call.
#[derive(Default)]
struct Notes(Vec<String>);

impl RhpEventSink for Notes {
    fn on_recv(&mut self, handle: u64, data: &[u8]) {
        self.0.push(format!("recv {handle} {data:?}"));
    }

    fn on_dgram(&mut self, handle: u64, source: Option<String>, dest: Option<String>, data: &[u8]) {
        self.0.push(format!("dgram {handle} {source:?} {dest:?} {data:?}"));
    }

    fn on_accept(&mut self, listener: u64, child: u64, remote: Option<String>, local: Option<String>) {
        self.0.push(format!("accept {listener} {child} {remote:?} {local:?}"));
    }

    fn on_status(&mut self, handle: u64, flags: i64) {
        self.0.push(format!("status {handle} {flags}"));
    }

    fn on_close(&mut self, handle: u64) {
        self.0.push(format!("close {handle}"));
    }
}

#[test]
fn a_push_reaches_the_method_meant_for_it_once() {
    let mut notes = Notes::default();
    let (a, b) = (Some("A".to_string()), Some("B".to_string()));
    deliver(&mut notes, Push::Recv { handle: 1, data: vec![7] });
    deliver(
        &mut notes,
        Push::Dgram { handle: 2, source: a.clone(), dest: b.clone(), data: vec![8] },
    );
    deliver(&mut notes, Push::Accept { listener: 3, child: 4, remote: a, local: b });
    deliver(&mut notes, Push::Status { handle: 5, flags: 2 });
    deliver(&mut notes, Push::Close { handle: 6 });
    assert_eq!(
        notes.0,
        vec![
            "recv 1 [7]",
            "dgram 2 Some(\"A\") Some(\"B\") [8]",
            "accept 3 4 Some(\"A\") Some(\"B\")",
            "status 5 2",
            "close 6",
        ]
    );
}

#[test]
fn a_buffering_sink_takes_pushes() {
    let mut sink = BufferingSink::new();
    sink.deliver(Push::Recv { handle: 1, data: b"ab".to_vec() });
    sink.deliver(Push::Status { handle: 1, flags: 2 });
    sink.deliver(Push::Recv { handle: 1, data: b"c".to_vec() });
    assert!(!sink.is_eof(1));
    sink.deliver(Push::Close { handle: 1 });
    assert_eq!(sink.take(1), b"abc".to_vec());
    assert!(sink.is_eof(1) && !sink.is_eof(2));
}

#[test]
fn the_base_client_settles_requests_in_time() {
    let mut client = RhpClient::new();
    let id = client.socket().id;
    assert!(client.reply_step(id, None, 5, 4).is_none());
    assert!(matches!(client.reply_step(id, None, 5, 5), Some(Outcome::Timeout)));
    let frame = Frame::parse(br#"{"handle":3}"#).unwrap();
    assert!(matches!(client.reply_step(id, Some(frame), 5, 9), Some(Outcome::Reply(_))));
    client.on_end();
    assert!(matches!(client.reply_step(id, None, 5, 0), Some(Outcome::Disconnected)));
}
