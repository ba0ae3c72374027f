//! The wire: data codec, error codes, framing and messages.

use pdn_ax25::rhp::codec::{from_wire_string, to_wire_string};
use pdn_ax25::rhp::errors::{errcode_name, errcode_to_errno};
use pdn_ax25::rhp::framing::{read_frame, write_frame, FrameError, FrameReader, MAX_FRAME};
use pdn_ax25::rhp::messages::{
    AuthReq, BindReq, CloseReq, Frame, ListenReq, OpenReq, SendReq, SendToReq, SocketReq,
    OPEN_FLAG_ACTIVE, STATUS_CONNECTED,
};

#[test]
fn round_trips_all_256_byte_values() {
    let bytes: Vec<u8> = (0u16..=255).map(|b| b as u8).collect();
    let wire = to_wire_string(&bytes);
    // One code point per byte.
    assert_eq!(wire.chars().count(), 256);
    let back = from_wire_string(&wire);
    assert_eq!(back, bytes);
}

#[test]
fn round_trips_awkward_control_and_high_bytes() {
    // 0x00 (NUL), 0x0D (CR), 0x0A (LF), 0x22 ("), 0x5C (\), 0x80, 0xFF.
    for &b in &[0x00u8, 0x0D, 0x0A, 0x22, 0x5C, 0x7F, 0x80, 0xA0, 0xFF] {
        let wire = to_wire_string(&[b]);
        assert_eq!(wire.chars().count(), 1);
        assert_eq!(from_wire_string(&wire), vec![b]);
    }
}

#[test]
fn survives_json_serialization_round_trip() {
    let bytes: Vec<u8> = (0u16..=255).map(|b| b as u8).collect();
    let wire = to_wire_string(&bytes);
    let mut object = serde_json::Map::new();
    object.insert("data".to_string(), serde_json::Value::String(wire));
    let json = serde_json::to_string(&serde_json::Value::Object(object)).unwrap();
    let parsed: serde_json::Value = serde_json::from_str(&json).unwrap();
    let decoded = from_wire_string(parsed["data"].as_str().unwrap());
    assert_eq!(decoded, bytes);
}

#[test]
fn code_points_above_latin1_decode_to_their_low_byte() {
    assert_eq!(from_wire_string("\u{100}\u{20AC}A"), vec![0x00, 0xAC, 0x41]);
}

#[test]
fn maps_known_codes() {
    assert_eq!(errcode_to_errno(0), 0);
    assert_eq!(errcode_to_errno(3), libc::EBADF);
    assert_eq!(errcode_to_errno(8), libc::EAFNOSUPPORT);
    assert_eq!(errcode_to_errno(17), libc::ENOTCONN);
}

#[test]
fn unknown_codes_map_to_eio() {
    assert_eq!(errcode_to_errno(9999), libc::EIO);
    assert_eq!(errcode_to_errno(1), libc::EIO); // Unspecified
}

#[test]
fn every_listed_code_has_its_errno_and_name() {
    let table = [
        (0i64, 0i32, "Ok"),
        (3, libc::EBADF, "Invalid handle"),
        (6, libc::EADDRNOTAVAIL, "Invalid local address"),
        (7, libc::EINVAL, "Invalid remote address"),
        (8, libc::EAFNOSUPPORT, "Bad or missing family"),
        (9, libc::EADDRINUSE, "Duplicate socket"),
        (12, libc::EINVAL, "Bad parameter"),
        (14, libc::EACCES, "Unauthorised"),
        (15, libc::EHOSTUNREACH, "No route"),
        (16, libc::EOPNOTSUPP, "Operation not supported"),
        (17, libc::ENOTCONN, "Not connected"),
        (-1, libc::EIO, "Unspecified"),
        (18, libc::EIO, "Unspecified"),
    ];
    for (code, errno, name) in table {
        assert_eq!(errcode_to_errno(code), errno);
        assert_eq!(errcode_name(code), name);
    }
}

#[test]
fn write_then_read_round_trips() {
    let mut buf = Vec::new();
    write_frame(&mut buf, b"{\"type\":\"ping\"}").unwrap();
    // 2-byte length prefix present and big-endian.
    assert_eq!(&buf[0..2], &[0x00, 0x0F]);
    let mut reader = FrameReader::new(buf);
    let frame = read_frame(&mut reader).unwrap().unwrap();
    assert_eq!(frame, b"{\"type\":\"ping\"}");
}

#[test]
fn clean_eof_returns_none() {
    let mut reader = FrameReader::new(Vec::<u8>::new());
    assert!(read_frame(&mut reader).unwrap().is_none());
}

#[test]
fn oversize_payload_is_rejected() {
    let mut buf = Vec::new();
    let big = vec![0u8; MAX_FRAME + 1];
    assert!(write_frame(&mut buf, &big).is_err());
}

#[test]
fn oversize_error_names_both_sizes_and_writes_nothing() {
    let mut buf = vec![1, 2, 3];
    let big = vec![0u8; MAX_FRAME + 1];
    let e = write_frame(&mut buf, &big).unwrap_err();
    assert_eq!(e, FrameError::TooLarge(65536));
    assert_eq!(e.message(), "RHP frame too large: 65536 > 65535");
    assert_eq!(buf, vec![1, 2, 3]);
}

#[test]
fn largest_payload_round_trips() {
    let body = vec![0x5Au8; MAX_FRAME];
    let mut buf = Vec::new();
    write_frame(&mut buf, &body).unwrap();
    assert_eq!(&buf[0..2], &[0xFF, 0xFF]);
    let mut reader = FrameReader::new(buf);
    assert_eq!(read_frame(&mut reader).unwrap().unwrap(), body);
    assert!(read_frame(&mut reader).unwrap().is_none());
}

#[test]
fn input_that_ends_inside_a_frame_is_an_error_until_the_rest_arrives() {
    let mut buf = Vec::new();
    write_frame(&mut buf, b"abc").unwrap();
    write_frame(&mut buf, b"").unwrap();
    write_frame(&mut buf, b"de").unwrap();
    let mut reader = FrameReader::new(Vec::new());
    let mut frames = Vec::new();
    for b in buf {
        reader.feed(&[b]);
        match read_frame(&mut reader) {
            Ok(Some(f)) => frames.push(f),
            Ok(None) => panic!("bytes are there"),
            Err(e) => assert_eq!(e, FrameError::UnexpectedEof),
        }
    }
    assert_eq!(frames, vec![b"abc".to_vec(), b"".to_vec(), b"de".to_vec()]);
    assert!(read_frame(&mut reader).unwrap().is_none());
    assert_eq!(FrameError::UnexpectedEof.message(), "failed to fill whole buffer");
}

#[test]
fn open_request_serialises_type_first_and_omits_none() {
    let req = OpenReq {
        typ: "open",
        id: 7,
        pfam: "ax25",
        mode: "stream",
        port: None,
        local: "M0LTE",
        remote: Some("GB7RDG"),
        flags: OPEN_FLAG_ACTIVE,
    };
    let s = String::from_utf8(req.to_json().unwrap()).unwrap();
    // `type` must be the first key on the wire.
    assert!(s.starts_with("{\"type\":\"open\""), "got: {s}");
    // `port` (None) must be omitted.
    assert!(!s.contains("port"), "got: {s}");
    assert!(s.contains("\"flags\":128"));
    assert!(s.contains("\"remote\":\"GB7RDG\""));
}

#[test]
fn requests_serialise_member_by_member() {
    let text = |bytes: Vec<u8>| String::from_utf8(bytes).unwrap();
    let open = OpenReq {
        typ: "open",
        id: 1,
        pfam: "ax25",
        mode: "stream",
        port: Some("2"),
        local: "A",
        remote: None,
        flags: 0,
    };
    assert_eq!(
        text(open.to_json().unwrap()),
        r#"{"type":"open","id":1,"pfam":"ax25","mode":"stream","port":"2","local":"A","flags":0}"#
    );
    let send = SendReq { typ: "send", id: 2, handle: 42, data: "a\"\\\u{0}\r\u{1f}\u{7f}\u{ff}" };
    assert_eq!(
        text(send.to_json().unwrap()),
        "{\"type\":\"send\",\"id\":2,\"handle\":42,\"data\":\"a\\\"\\\\\\u0000\\r\\u001f\u{7f}\u{ff}\"}"
    );
    let close = CloseReq { typ: "close", id: 3, handle: u64::MAX };
    assert_eq!(
        text(close.to_json().unwrap()),
        r#"{"type":"close","id":3,"handle":18446744073709551615}"#
    );
    let socket = SocketReq { typ: "socket", id: 4, pfam: "ax25", mode: "custom" };
    assert_eq!(
        text(socket.to_json().unwrap()),
        r#"{"type":"socket","id":4,"pfam":"ax25","mode":"custom"}"#
    );
    let bind = BindReq { typ: "bind", id: 5, handle: 3, local: "GB7RDG-1", port: None };
    assert_eq!(
        text(bind.to_json().unwrap()),
        r#"{"type":"bind","id":5,"handle":3,"local":"GB7RDG-1"}"#
    );
    let listen = ListenReq { typ: "listen", id: 6, handle: 3, flags: 0 };
    assert_eq!(
        text(listen.to_json().unwrap()),
        r#"{"type":"listen","id":6,"handle":3,"flags":0}"#
    );
    let auth = AuthReq { typ: "auth", id: 7, user: "u", pass: "p\tq" };
    assert_eq!(
        text(auth.to_json().unwrap()),
        r#"{"type":"auth","id":7,"user":"u","pass":"p\tq"}"#
    );
    let sendto = SendToReq {
        typ: "sendto",
        id: 8,
        handle: 21,
        remote: "BEACON",
        local: "M0LTE-2",
        data: "\u{F0}de M0LTE",
    };
    assert_eq!(
        text(sendto.to_json().unwrap()),
        "{\"type\":\"sendto\",\"id\":8,\"handle\":21,\"remote\":\"BEACON\",\"local\":\"M0LTE-2\",\"data\":\"\u{F0}de M0LTE\"}"
    );
}

#[test]
fn a_send_request_reads_back_with_every_byte_value() {
    let bytes: Vec<u8> = (0u16..=255).map(|b| b as u8).collect();
    let wire = to_wire_string(&bytes);
    let req = SendReq { typ: "send", id: 11, handle: 5, data: &wire };
    let f = Frame::parse(&req.to_json().unwrap()).unwrap();
    assert_eq!(f.typ(), "send");
    assert_eq!(f.id(), Some(11));
    assert_eq!(f.handle(), Some(5));
    assert_eq!(from_wire_string(f.data_str().unwrap()), bytes);
}

#[test]
fn reply_reads_capitalised_errcode() {
    let f = Frame::parse(br#"{"type":"openReply","id":7,"handle":42,"errCode":0,"errText":"Ok"}"#)
        .unwrap();
    assert_eq!(f.typ(), "openReply");
    assert_eq!(f.id(), Some(7));
    assert_eq!(f.handle(), Some(42));
    assert_eq!(f.errcode(), 0);
    assert_eq!(f.errtext(), Some("Ok"));
}

#[test]
fn push_has_seqno_and_no_id() {
    let f = Frame::parse(br#"{"type":"recv","handle":42,"data":"hi","seqno":3}"#).unwrap();
    assert_eq!(f.id(), None);
    assert_eq!(f.seqno(), Some(3));
    assert_eq!(f.data_str(), Some("hi"));
}

#[test]
fn status_flags_reads_flags_then_falls_back_to_errcode() {
    // Explicit `flags` field wins.
    let f = Frame::parse(br#"{"type":"status","handle":7,"flags":2}"#).unwrap();
    assert_eq!(f.status_flags(), STATUS_CONNECTED);
    // A `status` field is also honoured.
    let f = Frame::parse(br#"{"type":"status","handle":7,"status":2}"#).unwrap();
    assert_eq!(f.status_flags(), STATUS_CONNECTED);
    // Legacy plumbing carried the bitfield in errCode.
    let f = Frame::parse(br#"{"type":"status","handle":7,"errCode":2}"#).unwrap();
    assert_eq!(f.status_flags(), STATUS_CONNECTED);
}

#[test]
fn frames_read_either_case_and_ignore_wrong_kinds() {
    let f = Frame::parse(br#"{"errcode":-3,"errtext":"lower","child":9,"local":"L","remote":"R"}"#)
        .unwrap();
    assert_eq!(f.typ(), "");
    assert_eq!(f.errcode(), -3);
    assert_eq!(f.errtext(), Some("lower"));
    assert_eq!(f.child(), Some(9));
    assert_eq!(f.local(), Some("L"));
    assert_eq!(f.remote(), Some("R"));
    assert!(f.is_dgram_recv());
    // The capitalised key counts where both are there, whatever it holds.
    let f = Frame::parse(br#"{"errCode":"x","errcode":4,"id":-1,"handle":1.5,"data":7,"type":null}"#)
        .unwrap();
    assert_eq!(f.errcode(), 0);
    assert_eq!(f.id(), None);
    assert_eq!(f.handle(), None);
    assert_eq!(f.data_str(), None);
    assert_eq!(f.typ(), "");
    assert!(!f.is_dgram_recv());
    // An unsigned number above the signed range is no error code.
    let f = Frame::parse(br#"{"errCode":9223372036854775808,"id":9223372036854775808}"#).unwrap();
    assert_eq!(f.errcode(), 0);
    assert_eq!(f.id(), Some(9223372036854775808));
    // A document that is no object has no members.
    let f = Frame::parse(b"[1]").unwrap();
    assert_eq!(f.id(), None);
    assert!(Frame::parse(b"{").is_err());
    assert!(Frame::parse(b"\xff").is_err());
    assert!(Frame::parse(b"{} x").is_err());
}
