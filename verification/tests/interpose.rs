//! Socket calls, step by step.

use pdn_ax25::interpose::addr::{
    copy_len, decode, encode, read_call, write_call, write_sockname, AF_AX25, CALL_BYTES,
    SOCKADDR_LEN, SOCK_DGRAM, SOCK_SEQPACKET, SOL_AX25,
};
use pdn_ax25::interpose::calls::{Action, Event};
use pdn_ax25::interpose::dgram::{
    DgramRecvCall, DgramSendCall, EnsureCall, EnsurePhase, RecvFromPhase,
};
use pdn_ax25::interpose::link::{
    hold_step, in_order, AcceptCall, BindCall, CloseCall, ClosePhase, ConnectCall, Hold, ListenCall,
    ListenPhase, SendCall,
};
use pdn_ax25::interpose::sink::{Datagram, DgramOutcome, Flush, InterposeSink};
use pdn_ax25::interpose::state::{
    connect_errno, no_call_errno, no_client_errno, socket, Call, Dest, GetStep, Route, State,
    AX25_PACLEN, AX25_PIDINCL, AX25_WINDOW, SOCK_CLOEXEC, SOCK_NONBLOCK, SOL_SOCKET, SO_ERROR,
};
use pdn_ax25::libax25::addr::{null_ax25_address, FULL_SOCKADDR_LEN};
use pdn_ax25::rhp::client::{OpenResult, Push, RhpError, RhpEventSink};
use pdn_ax25::rhpv2::AcceptInfo;

fn text(s: &str) -> Option<String> {
    Some(s.to_string())
}

fn server_error(errcode: i64) -> RhpError {
    RhpError::Server { errcode, errtext: None }
}

fn with_socket(dgram: bool) -> State {
    let mut st = State::new();
    st.create_ax25_fd(10, 11, dgram);
    st
}

fn bound(call: &str, dgram: bool) -> State {
    let mut st = with_socket(dgram);
    let mut bind = BindCall { fd: 10, call: text(call), opening: false };
    let _ = bind.next(&mut st, Event::Start);
    st
}

#[test]
fn encode_decode_round_trips() {
    for call in ["M0LTE", "M0LTE-1", "GB7RDG-15", "G0ABC"] {
        let enc = encode(call);
        assert_eq!(decode(&enc), call);
    }
}

#[test]
fn text_that_is_no_callsign_encodes_to_no_address() {
    let none = null_ax25_address().ax25_call;
    for bad in ["M0*TE", "M0LTE-16", "M0LTE-x", "M0LTE-", "TOOLONG", "GB7RDGX5", "M0LTE-1x", "G\u{e9}"]
    {
        assert_eq!(encode(bad), none, "{bad}");
    }
    assert_eq!(encode(""), none);
    assert_eq!(decode(&encode("m0lte-+7")), "M0LTE-7");
}

#[test]
fn callsigns_are_read_from_addresses() {
    let mut raw = vec![3u8, 0];
    raw.extend_from_slice(&encode("GB7RDG-2"));
    assert_eq!(raw.len(), CALL_BYTES);
    assert_eq!(read_call(Some(&raw)).as_deref(), Some("GB7RDG-2"));
    assert_eq!(read_call(Some(&raw[..8])), None);
    assert_eq!(read_call(None), None);
    raw.extend_from_slice(&[9; 40]);
    assert_eq!(read_call(Some(&raw)).as_deref(), Some("GB7RDG-2"));
}

#[test]
fn callsigns_are_written_to_addresses() {
    let a = write_call("M0ABC-2");
    assert_eq!(i32::from(a.sax25_family), AF_AX25);
    assert_eq!(decode(&a.sax25_call.ax25_call), "M0ABC-2");
    assert_eq!(a.sax25_ndigis, 0);
    let f = write_sockname("GB7RDG-1");
    assert_eq!(decode(&f.fsa_digipeater[0].ax25_call), "GB7RDG-1");
    assert_eq!(decode(&f.fsa_ax25.sax25_call.ax25_call), "GB7RDG-1");
    assert_eq!(f.fsa_ax25.sax25_ndigis, 1);
    assert_eq!(decode(&f.fsa_digipeater[1].ax25_call), "");
    assert_eq!(copy_len(4, SOCKADDR_LEN), 4);
    assert_eq!(copy_len(100, SOCKADDR_LEN), 16);
    assert_eq!(FULL_SOCKADDR_LEN, 72);
}

#[test]
fn only_ax25_sockets_are_served() {
    assert_eq!(socket(AF_AX25, SOCK_SEQPACKET), Route::Stream);
    assert_eq!(socket(AF_AX25, SOCK_DGRAM), Route::Dgram);
    assert_eq!(socket(AF_AX25, SOCK_SEQPACKET | SOCK_CLOEXEC | SOCK_NONBLOCK), Route::Stream);
    assert_eq!(socket(AF_AX25, SOCK_DGRAM | SOCK_NONBLOCK), Route::Dgram);
    assert_eq!(socket(AF_AX25, 1), Route::PassThrough);
    assert_eq!(socket(2, SOCK_DGRAM), Route::PassThrough);
}

#[test]
fn other_descriptors_are_untouched() {
    let mut st = with_socket(false);
    assert!(!st.is_ax25_fd(99));
    assert_eq!(st.route(99), Route::PassThrough);
    let mut bind = BindCall { fd: 99, call: text("M0LTE"), opening: false };
    assert!(matches!(bind.next(&mut st, Event::Start), Action::PassThrough));
    let mut listen = ListenCall { fd: 99, local: String::new(), phase: ListenPhase::Start };
    assert!(matches!(listen.next(&mut st, Event::Start), Action::PassThrough));
    let mut connect = ConnectCall::new(99, text("M0LTE"), None);
    assert!(matches!(connect.next(&mut st, Event::Start), Action::PassThrough));
    let mut accept = AcceptCall::new(99);
    assert!(matches!(accept.next(&mut st, Event::Start), Action::PassThrough));
    let mut close = CloseCall { fd: 99, phase: ClosePhase::Start };
    assert!(matches!(close.next(&mut st, Event::Start), Action::PassThrough));
    assert!(!st.setsockopt(99, SOL_AX25, AX25_WINDOW, Some(1)));
    assert_eq!(st.getsockopt(99, SOL_SOCKET, SO_ERROR, true), GetStep::PassThrough);
    assert_eq!(st.getsockname(99), None);
    assert_eq!(st.getpeername(99), None);
}

#[test]
fn a_blocking_connect_returns_only_when_linked() {
    let mut st = bound("M0LTE-1", false);
    let mut c = ConnectCall::new(10, text("GB7RDG"), text("IGNORED"));
    assert!(matches!(c.next(&mut st, Event::Start), Action::GetClient));
    match c.next(&mut st, Event::Client(true)) {
        Action::OpenLink { local, remote } => {
            assert_eq!(local, "M0LTE-1");
            assert_eq!(remote, "GB7RDG");
        }
        other => panic!("{other:?}"),
    }
    let opened = Ok(OpenResult { handle: 100, errcode: 0, errtext: None });
    assert!(matches!(
        c.next(&mut st, Event::Opened(opened)),
        Action::RegisterRecv { handle: 100, inner_fd: 11 }
    ));
    assert_eq!(st.getpeername(10).as_deref(), Some("GB7RDG"));
    assert!(matches!(c.next(&mut st, Event::Done), Action::AskNonblocking));
    assert!(matches!(
        c.next(&mut st, Event::Flag(false)),
        Action::WaitLink { handle: 100, limit: 300_000_000_000 }
    ));
    assert!(matches!(
        c.next(&mut st, Event::Linked(Ok(()))),
        Action::RegisterOutbound { handle: 100, inner_fd: 11 }
    ));
    assert!(matches!(c.next(&mut st, Event::Done), Action::Return(0)));
}

#[test]
fn a_failed_link_is_reported() {
    let mut st = with_socket(false);
    let mut c = ConnectCall::new(10, text("GB7RDG"), None);
    assert!(matches!(c.next(&mut st, Event::Start), Action::GetClient));
    match c.next(&mut st, Event::Client(true)) {
        Action::OpenLink { local, .. } => assert_eq!(local, "NOCALL"),
        other => panic!("{other:?}"),
    }
    let opened = Ok(OpenResult { handle: 5, errcode: 0, errtext: None });
    let _ = c.next(&mut st, Event::Opened(opened));
    let _ = c.next(&mut st, Event::Done);
    let _ = c.next(&mut st, Event::Flag(false));
    assert!(matches!(
        c.next(&mut st, Event::Linked(Err(libc::EHOSTUNREACH))),
        Action::Fail(libc::EHOSTUNREACH)
    ));
}

#[test]
fn a_nonblocking_connect_is_in_progress() {
    for decided in [false, true] {
        let mut st = with_socket(false);
        let mut c = ConnectCall::new(10, text("GB7RDG"), text("M0SRC"));
        let _ = c.next(&mut st, Event::Start);
        match c.next(&mut st, Event::Client(true)) {
            Action::OpenLink { local, .. } => assert_eq!(local, "M0SRC"),
            other => panic!("{other:?}"),
        }
        let opened = Ok(OpenResult { handle: 5, errcode: 0, errtext: None });
        let _ = c.next(&mut st, Event::Opened(opened));
        let _ = c.next(&mut st, Event::Done);
        assert!(matches!(
            c.next(&mut st, Event::Flag(true)),
            Action::HoldWritable { handle: 5, app_fd: 10, inner_fd: 11 }
        ));
        assert!(matches!(c.next(&mut st, Event::Done), Action::PeekLink { handle: 5 }));
        let mut last = c.next(&mut st, Event::Flag(decided));
        if decided {
            assert!(matches!(last, Action::LetWritable { handle: 5 }));
            last = c.next(&mut st, Event::Done);
        }
        assert!(matches!(last, Action::Fail(libc::EINPROGRESS)));
        assert_eq!(
            st.getsockopt(10, SOL_SOCKET, SO_ERROR, true),
            GetStep::PendingError(Some(5))
        );
    }
}

#[test]
fn connect_fails_as_it_should() {
    let mut st = with_socket(false);
    let mut c = ConnectCall::new(10, None, None);
    assert!(matches!(c.next(&mut st, Event::Start), Action::Fail(libc::EINVAL)));
    let mut c = ConnectCall::new(10, text("A"), None);
    let _ = c.next(&mut st, Event::Start);
    assert!(matches!(c.next(&mut st, Event::Client(false)), Action::Fail(libc::ECONNREFUSED)));
    let mut c = ConnectCall::new(10, text("A"), None);
    let _ = c.next(&mut st, Event::Start);
    let _ = c.next(&mut st, Event::Client(true));
    assert!(matches!(
        c.next(&mut st, Event::Opened(Err(server_error(8)))),
        Action::Fail(libc::EAFNOSUPPORT)
    ));
    // The socket was closed meanwhile.
    let mut c = ConnectCall::new(10, text("A"), None);
    let _ = c.next(&mut st, Event::Start);
    let _ = c.next(&mut st, Event::Client(true));
    assert!(st.destroy_ax25_fd(10).is_some());
    let opened = Ok(OpenResult { handle: 5, errcode: 0, errtext: None });
    assert!(matches!(c.next(&mut st, Event::Opened(opened)), Action::Fail(libc::EBADF)));
}

#[test]
fn a_datagram_socket_connects_to_a_default_destination() {
    let mut st = bound("M0LTE", true);
    let mut c = ConnectCall::new(10, text("BEACON"), None);
    assert!(matches!(c.next(&mut st, Event::Start), Action::EnsureDgram));
    assert!(matches!(c.next(&mut st, Event::Ensured(Ok(7))), Action::Return(0)));
    assert_eq!(st.peer(10).as_deref(), Some("BEACON"));
    let mut c = ConnectCall::new(10, text("OTHER"), None);
    let _ = c.next(&mut st, Event::Start);
    assert!(matches!(c.next(&mut st, Event::Ensured(Err(libc::EIO))), Action::Fail(libc::EIO)));
    assert_eq!(st.peer(10).as_deref(), Some("BEACON"));
}

#[test]
fn listen_opens_binds_and_listens() {
    let mut st = bound("GB7RDG-1", false);
    let mut l = ListenCall { fd: 10, local: String::new(), phase: ListenPhase::Start };
    assert!(matches!(l.next(&mut st, Event::Start), Action::GetClient));
    assert!(matches!(l.next(&mut st, Event::Client(true)), Action::OpenSocket { dgram: false }));
    match l.next(&mut st, Event::Handle(Ok(3))) {
        Action::Bind { handle, local } => {
            assert_eq!(handle, 3);
            assert_eq!(local, "GB7RDG-1");
        }
        other => panic!("{other:?}"),
    }
    assert!(matches!(l.next(&mut st, Event::Finished(Ok(()))), Action::Listen { handle: 3 }));
    assert_eq!(st.handle_of(10), None);
    assert!(matches!(l.next(&mut st, Event::Finished(Ok(()))), Action::Return(0)));
    assert_eq!(st.handle_of(10), Some(3));
    assert!(st.destroy_ax25_fd(10).unwrap().listening);
}

#[test]
fn listen_fails_as_it_should() {
    let start = |fd| ListenCall { fd, local: String::new(), phase: ListenPhase::Start };
    let mut st = with_socket(false);
    assert!(matches!(start(10).next(&mut st, Event::Start), Action::Fail(libc::EINVAL)));
    let mut st = bound("A", false);
    let mut l = start(10);
    let _ = l.next(&mut st, Event::Start);
    assert!(matches!(l.next(&mut st, Event::Client(false)), Action::Fail(libc::ECONNREFUSED)));
    let mut l = start(10);
    let _ = l.next(&mut st, Event::Start);
    let _ = l.next(&mut st, Event::Client(true));
    assert!(matches!(
        l.next(&mut st, Event::Handle(Err(RhpError::Timeout))),
        Action::Fail(libc::ETIMEDOUT)
    ));
    for good_bind in [false, true] {
        let mut l = start(10);
        let _ = l.next(&mut st, Event::Start);
        let _ = l.next(&mut st, Event::Client(true));
        let _ = l.next(&mut st, Event::Handle(Ok(3)));
        if good_bind {
            let _ = l.next(&mut st, Event::Finished(Ok(())));
        }
        assert!(matches!(
            l.next(&mut st, Event::Finished(Err(server_error(9)))),
            Action::Fail(libc::EADDRINUSE)
        ));
        assert_eq!(st.handle_of(10), None);
    }
}

fn listener() -> State {
    let mut st = bound("GB7RDG-1", false);
    assert_eq!(st.listen_done(10, Ok(3)).ok(), Some(()));
    st
}

#[test]
fn accept_gives_a_call_a_socket_of_its_own() {
    let mut st = listener();
    let mut a = AcceptCall::new(10);
    assert!(matches!(a.next(&mut st, Event::Start), Action::GetClient));
    assert!(matches!(a.next(&mut st, Event::Client(true)), Action::AskNonblocking));
    assert!(matches!(a.next(&mut st, Event::Flag(false)), Action::WaitCall { listener: 3 }));
    let info = AcceptInfo { child_handle: 77, remote: text("M0ABC-2"), local: text("GB7RDG-9") };
    assert!(matches!(a.next(&mut st, Event::Called(Some(info))), Action::MakeSocket));
    assert!(matches!(
        a.next(&mut st, Event::Made(Some((20, 21)))),
        Action::RegisterRecv { handle: 77, inner_fd: 21 }
    ));
    assert!(matches!(
        a.next(&mut st, Event::Done),
        Action::RegisterOutbound { handle: 77, inner_fd: 21 }
    ));
    match a.next(&mut st, Event::Done) {
        Action::ReportPeer(call) => assert_eq!(call, "M0ABC-2"),
        other => panic!("{other:?}"),
    }
    assert!(matches!(a.next(&mut st, Event::Done), Action::Return(20)));
    assert_eq!(st.getsockname(20).as_deref(), Some("GB7RDG-9"));
    assert_eq!(st.getpeername(20).as_deref(), Some("M0ABC-2"));
    assert_eq!(st.handle_of(20), Some(77));
    assert_eq!(st.route(20), Route::Stream);
}

#[test]
fn a_call_without_callsigns_uses_those_of_the_listener() {
    let mut st = listener();
    let mut a = AcceptCall::new(10);
    let _ = a.next(&mut st, Event::Start);
    let _ = a.next(&mut st, Event::Client(true));
    assert!(matches!(a.next(&mut st, Event::Flag(true)), Action::TakeCall { listener: 3 }));
    let info = AcceptInfo { child_handle: 77, remote: None, local: None };
    let _ = a.next(&mut st, Event::Called(Some(info)));
    let _ = a.next(&mut st, Event::Made(Some((20, 21))));
    let _ = a.next(&mut st, Event::Done);
    assert!(matches!(a.next(&mut st, Event::Done), Action::Return(20)));
    assert_eq!(st.getsockname(20).as_deref(), Some("GB7RDG-1"));
    assert_eq!(st.getpeername(20).as_deref(), Some(""));
}

#[test]
fn accept_fails_as_it_should() {
    let mut st = with_socket(false);
    assert!(matches!(
        AcceptCall::new(10).next(&mut st, Event::Start),
        Action::Fail(libc::EINVAL)
    ));
    let mut st = listener();
    let mut a = AcceptCall::new(10);
    let _ = a.next(&mut st, Event::Start);
    assert!(matches!(a.next(&mut st, Event::Client(false)), Action::Fail(libc::ECONNABORTED)));
    for (nonblocking, errno) in [(true, libc::EAGAIN), (false, libc::ECONNABORTED)] {
        let mut a = AcceptCall::new(10);
        let _ = a.next(&mut st, Event::Start);
        let _ = a.next(&mut st, Event::Client(true));
        let _ = a.next(&mut st, Event::Flag(nonblocking));
        assert!(matches!(a.next(&mut st, Event::Called(None)), Action::Fail(e) if e == errno));
    }
    let mut a = AcceptCall::new(10);
    let _ = a.next(&mut st, Event::Start);
    let _ = a.next(&mut st, Event::Client(true));
    let _ = a.next(&mut st, Event::Flag(true));
    let info = AcceptInfo { child_handle: 77, remote: None, local: None };
    let _ = a.next(&mut st, Event::Called(Some(info)));
    assert!(matches!(a.next(&mut st, Event::Made(None)), Action::Fail(libc::ENFILE)));
}

#[test]
fn binding_a_datagram_socket_opens_its_handle() {
    let mut st = with_socket(true);
    let mut b = BindCall { fd: 10, call: text("GB7RDG-2"), opening: false };
    assert!(matches!(b.next(&mut st, Event::Start), Action::EnsureDgram));
    assert_eq!(st.getsockname(10).as_deref(), Some("GB7RDG-2"));
    assert!(matches!(b.next(&mut st, Event::Ensured(Ok(4))), Action::Return(0)));
    let mut b = BindCall { fd: 10, call: None, opening: false };
    let _ = b.next(&mut st, Event::Start);
    assert!(matches!(b.next(&mut st, Event::Ensured(Err(libc::EIO))), Action::Fail(libc::EIO)));
    assert_eq!(st.getsockname(10).as_deref(), Some("GB7RDG-2"));
    let mut st = with_socket(false);
    let mut b = BindCall { fd: 10, call: None, opening: false };
    assert!(matches!(b.next(&mut st, Event::Start), Action::Return(0)));
}

#[test]
fn a_datagram_handle_is_opened_once() {
    let mut st = bound("GB7RDG-2", true);
    let start = || EnsureCall { fd: 10, local: None, phase: EnsurePhase::Start };
    let mut e = start();
    assert!(matches!(e.next(&mut st, Event::Start), Action::GetClient));
    assert!(matches!(e.next(&mut st, Event::Client(true)), Action::OpenSocket { dgram: true }));
    match e.next(&mut st, Event::Handle(Ok(4))) {
        Action::Bind { handle, local } => {
            assert_eq!((handle, local.as_str()), (4, "GB7RDG-2"));
        }
        other => panic!("{other:?}"),
    }
    assert!(matches!(
        e.next(&mut st, Event::Finished(Ok(()))),
        Action::RegisterDgram { handle: 4, app_fd: 10, inner_fd: 11 }
    ));
    assert!(matches!(e.next(&mut st, Event::Done), Action::Have(4)));
    assert!(matches!(start().next(&mut st, Event::Start), Action::Have(4)));
}

#[test]
fn an_unbound_datagram_socket_is_not_bound() {
    let mut st = with_socket(true);
    let mut e = EnsureCall { fd: 10, local: None, phase: EnsurePhase::Start };
    let _ = e.next(&mut st, Event::Start);
    let _ = e.next(&mut st, Event::Client(true));
    assert!(matches!(
        e.next(&mut st, Event::Handle(Ok(4))),
        Action::RegisterDgram { handle: 4, .. }
    ));
}

#[test]
fn a_datagram_handle_that_cannot_be_used_is_closed() {
    let start = || EnsureCall { fd: 10, local: None, phase: EnsurePhase::Start };
    let mut st = State::new();
    assert!(matches!(start().next(&mut st, Event::Start), Action::Fail(libc::EBADF)));
    let mut st = bound("GB7RDG-2", true);
    let mut e = start();
    let _ = e.next(&mut st, Event::Start);
    assert!(matches!(e.next(&mut st, Event::Client(false)), Action::Fail(libc::ECONNREFUSED)));
    let mut e = start();
    let _ = e.next(&mut st, Event::Start);
    let _ = e.next(&mut st, Event::Client(true));
    assert!(matches!(
        e.next(&mut st, Event::Handle(Err(server_error(16)))),
        Action::Fail(libc::EOPNOTSUPP)
    ));
    // The callsign cannot be bound.
    let mut e = start();
    let _ = e.next(&mut st, Event::Start);
    let _ = e.next(&mut st, Event::Client(true));
    let _ = e.next(&mut st, Event::Handle(Ok(4)));
    assert!(matches!(
        e.next(&mut st, Event::Finished(Err(server_error(6)))),
        Action::Close { handle: 4 }
    ));
    assert!(matches!(e.next(&mut st, Event::Done), Action::Fail(libc::EADDRNOTAVAIL)));
    // Another one was faster.
    let mut e = start();
    let _ = e.next(&mut st, Event::Start);
    let _ = e.next(&mut st, Event::Client(true));
    let _ = e.next(&mut st, Event::Handle(Ok(4)));
    let _ = st.dgram_opened(10, 40);
    assert!(matches!(e.next(&mut st, Event::Finished(Ok(()))), Action::Close { handle: 4 }));
    assert!(matches!(e.next(&mut st, Event::Done), Action::Have(40)));
    // The socket is gone.
    let mut st = bound("GB7RDG-2", true);
    let mut e = start();
    let _ = e.next(&mut st, Event::Start);
    let _ = e.next(&mut st, Event::Client(true));
    let _ = e.next(&mut st, Event::Handle(Ok(4)));
    let _ = st.destroy_ax25_fd(10);
    assert!(matches!(e.next(&mut st, Event::Finished(Ok(()))), Action::Close { handle: 4 }));
    assert!(matches!(e.next(&mut st, Event::Done), Action::Fail(libc::EBADF)));
}

/// Runs a datagram send up to the request.
fn outgoing(st: &State, dest: Option<&str>, data: &[u8]) -> Action {
    let to = || match dest {
        Some(c) => Dest::Address(text(c)),
        None => Dest::Default,
    };
    let mut s = DgramSendCall::new(10, data.to_vec());
    assert!(matches!(s.next(st, to(), None, Event::Start), Action::EnsureDgram));
    match s.next(st, to(), text("M0SRC"), Event::Ensured(Ok(4))) {
        Action::GetClient => s.next(st, to(), None, Event::Client(true)),
        other => other,
    }
}

#[test]
fn datagrams_carry_the_protocol_id() {
    let mut st = bound("GB7RDG-2", true);
    match outgoing(&st, Some("BEACON"), b"de GB7RDG-2 beacon") {
        Action::SendTo { handle, remote, local, wire } => {
            assert_eq!(handle, 4);
            assert_eq!((remote.as_str(), local.as_str()), ("BEACON", "GB7RDG-2"));
            assert_eq!(wire, [&[0xF0u8][..], b"de GB7RDG-2 beacon"].concat());
        }
        other => panic!("{other:?}"),
    }
    assert!(st.setsockopt(10, SOL_AX25, AX25_PIDINCL, Some(1)));
    match outgoing(&st, Some("BEACON"), &[0xCC, b'i', b'p']) {
        Action::SendTo { wire, .. } => assert_eq!(wire, vec![0xCC, b'i', b'p']),
        other => panic!("{other:?}"),
    }
    // Not even room for the protocol id.
    assert!(matches!(outgoing(&st, Some("BEACON"), b""), Action::Fail(libc::EINVAL)));
    assert!(st.setsockopt(10, SOL_AX25, AX25_PIDINCL, Some(0)));
    match outgoing(&st, Some("BEACON"), b"") {
        Action::SendTo { wire, .. } => assert_eq!(wire, vec![0xF0]),
        other => panic!("{other:?}"),
    }
}

#[test]
fn datagrams_go_where_they_are_sent() {
    let mut st = with_socket(true);
    assert!(matches!(outgoing(&st, None, b"x"), Action::Fail(libc::EDESTADDRREQ)));
    st.connect_dgram(10, "APRS".to_string());
    match outgoing(&st, None, b"x") {
        Action::SendTo { remote, local, .. } => {
            assert_eq!((remote.as_str(), local.as_str()), ("APRS", "M0SRC"));
        }
        other => panic!("{other:?}"),
    }
    let mut s = DgramSendCall::new(10, b"x".to_vec());
    let _ = s.next(&st, Dest::Default, None, Event::Start);
    assert!(matches!(
        s.next(&st, Dest::Address(None), None, Event::Ensured(Ok(4))),
        Action::Fail(libc::EINVAL)
    ));
}

#[test]
fn a_datagram_counts_as_sent_with_all_its_bytes() {
    let st = bound("GB7RDG-2", true);
    let to = || Dest::Address(text("B"));
    for (event, ok) in [
        (Event::Finished(Ok(())), true),
        (Event::Finished(Err(server_error(17))), false),
    ] {
        let mut s = DgramSendCall::new(10, b"hello".to_vec());
        let _ = s.next(&st, to(), None, Event::Start);
        let _ = s.next(&st, to(), None, Event::Ensured(Ok(4)));
        let _ = s.next(&st, to(), None, Event::Client(true));
        match s.next(&st, to(), None, event) {
            Action::Return(n) => assert!(ok && n == 5),
            Action::Fail(e) => assert!(!ok && e == libc::ENOTCONN),
            other => panic!("{other:?}"),
        }
    }
    let mut s = DgramSendCall::new(10, b"hello".to_vec());
    let _ = s.next(&st, to(), None, Event::Start);
    let _ = s.next(&st, to(), None, Event::Ensured(Ok(4)));
    assert!(matches!(s.next(&st, to(), None, Event::Client(false)), Action::Fail(libc::EIO)));
    let mut s = DgramSendCall::new(10, b"hello".to_vec());
    let _ = s.next(&st, to(), None, Event::Start);
    assert!(matches!(
        s.next(&st, to(), None, Event::Ensured(Err(libc::EBADF))),
        Action::Fail(libc::EBADF)
    ));
}

/// Receives what is in an inbox.
fn received(st: &State, room: usize, nonblocking: bool, outcome: DgramOutcome) -> Action {
    let mut r = DgramRecvCall { fd: 10, room, dont_wait: false, phase: RecvFromPhase::Start };
    assert!(matches!(r.next(st, Event::Start), Action::EnsureDgram));
    assert!(matches!(r.next(st, Event::Ensured(Ok(4))), Action::AskNonblocking));
    assert!(matches!(r.next(st, Event::Flag(nonblocking)), Action::LookInbox { handle: 4 }));
    r.next(st, Event::Looked(outcome))
}

fn beacon() -> DgramOutcome {
    DgramOutcome::Got(Datagram {
        source: text("G0ABC-1"),
        data: [&[0xF0u8][..], b"beacon-rx"].concat(),
    })
}

#[test]
fn datagrams_are_delivered_with_or_without_the_protocol_id() {
    let mut st = bound("GB7RDG-2", true);
    match received(&st, 128, false, beacon()) {
        Action::Deliver { payload, source } => {
            assert_eq!(payload, b"beacon-rx".to_vec());
            assert_eq!(source, "G0ABC-1");
        }
        other => panic!("{other:?}"),
    }
    match received(&st, 3, false, beacon()) {
        Action::Deliver { payload, .. } => assert_eq!(payload, b"bea".to_vec()),
        other => panic!("{other:?}"),
    }
    assert!(st.setsockopt(10, SOL_AX25, AX25_PIDINCL, Some(1)));
    match received(&st, 128, false, beacon()) {
        Action::Deliver { payload, .. } => {
            assert_eq!(payload, [&[0xF0u8][..], b"beacon-rx"].concat());
        }
        other => panic!("{other:?}"),
    }
    let empty = DgramOutcome::Got(Datagram { source: None, data: Vec::new() });
    match received(&st, 128, false, empty) {
        Action::Deliver { payload, source } => assert!(payload.is_empty() && source.is_empty()),
        other => panic!("{other:?}"),
    }
}

#[test]
fn an_empty_inbox_is_waited_for_or_not() {
    let st = bound("GB7RDG-2", true);
    assert!(matches!(received(&st, 1, false, DgramOutcome::Eof), Action::Return(0)));
    assert!(matches!(
        received(&st, 1, false, DgramOutcome::NoHandle),
        Action::Fail(libc::ENOTCONN)
    ));
    assert!(matches!(
        received(&st, 1, true, DgramOutcome::Empty),
        Action::Fail(libc::EAGAIN)
    ));
    let mut r = DgramRecvCall { fd: 10, room: 9, dont_wait: false, phase: RecvFromPhase::Start };
    let _ = r.next(&st, Event::Start);
    let _ = r.next(&st, Event::Ensured(Ok(4)));
    let _ = r.next(&st, Event::Flag(false));
    assert!(matches!(r.next(&st, Event::Looked(DgramOutcome::Empty)), Action::WaitReadable));
    assert!(matches!(r.next(&st, Event::Done), Action::LookInbox { handle: 4 }));
    assert!(matches!(r.next(&st, Event::Looked(beacon())), Action::Deliver { .. }));
    // A caller that must not wait does not, whatever the socket is.
    let mut r = DgramRecvCall { fd: 10, room: 9, dont_wait: true, phase: RecvFromPhase::Start };
    let _ = r.next(&st, Event::Start);
    let _ = r.next(&st, Event::Ensured(Ok(4)));
    let _ = r.next(&st, Event::Flag(false));
    assert!(matches!(
        r.next(&st, Event::Looked(DgramOutcome::Empty)),
        Action::Fail(libc::EAGAIN)
    ));
    let mut r = DgramRecvCall { fd: 10, room: 9, dont_wait: true, phase: RecvFromPhase::Start };
    let _ = r.next(&st, Event::Start);
    assert!(matches!(r.next(&st, Event::Ensured(Err(libc::EBADF))), Action::Fail(libc::EBADF)));
}

#[test]
fn sending_needs_a_handle_and_the_engine() {
    let mut st = with_socket(false);
    let start = || SendCall::new(10, b"Welcome to GB7RDG BBS".to_vec());
    assert!(matches!(start().next(&st, Event::Start), Action::Fail(libc::ENOTCONN)));
    assert_eq!(st.listen_done(10, Ok(6)).ok(), Some(()));
    let mut s = start();
    assert!(matches!(s.next(&st, Event::Start), Action::GetClient));
    assert!(matches!(s.next(&st, Event::Client(false)), Action::Fail(libc::EIO)));
    let mut s = start();
    let _ = s.next(&st, Event::Start);
    assert!(matches!(s.next(&st, Event::Client(true)), Action::TakeWritten { handle: 6 }));
    match s.next(&st, Event::Written(Vec::new())) {
        Action::Send { handle, bytes } => {
            assert_eq!(handle, 6);
            assert_eq!(bytes, b"Welcome to GB7RDG BBS");
        }
        other => panic!("{other:?}"),
    }
    assert!(matches!(s.next(&st, Event::Sent(Ok(()))), Action::Return(21)));
    let mut s = start();
    let _ = s.next(&st, Event::Start);
    let _ = s.next(&st, Event::Client(true));
    let _ = s.next(&st, Event::Written(Vec::new()));
    assert!(matches!(
        s.next(&st, Event::Sent(Err(libc::ETIMEDOUT))),
        Action::Fail(libc::ETIMEDOUT)
    ));
}

#[test]
fn closing_always_releases() {
    let start = || CloseCall { fd: 10, phase: ClosePhase::Start };
    // Without a handle nobody is asked.
    let mut st = with_socket(false);
    let mut c = start();
    assert!(matches!(
        c.next(&mut st, Event::Start),
        Action::Release { open: None, app_fd: 10, inner_fd: 11 }
    ));
    assert!(matches!(c.next(&mut st, Event::Done), Action::Return(0)));
    assert!(!st.is_ax25_fd(10));
    for reached in [true, false] {
        let mut st = listener();
        let mut c = start();
        assert!(matches!(c.next(&mut st, Event::Start), Action::GetClient));
        let mut action = c.next(&mut st, Event::Client(reached));
        if reached {
            assert!(matches!(action, Action::Close { handle: 3 }));
            action = c.next(&mut st, Event::Done);
        }
        assert!(matches!(action, Action::Release { open: Some(3), app_fd: 10, inner_fd: 11 }));
        assert!(matches!(c.next(&mut st, Event::Done), Action::Return(0)));
        assert!(!st.is_ax25_fd(10));
    }
}

#[test]
fn options_are_noted() {
    let mut st = with_socket(true);
    assert!(st.is_dgram_fd(10));
    assert!(st.setsockopt(10, SOL_AX25, AX25_WINDOW, Some(4)));
    assert!(st.setsockopt(10, SOL_AX25, AX25_PACLEN, Some(256)));
    assert!(st.setsockopt(10, SOL_AX25, 77, Some(9)));
    assert!(st.setsockopt(10, SOL_AX25, AX25_WINDOW, None));
    assert!(st.setsockopt(10, SOL_SOCKET, AX25_PACLEN, Some(1)));
    assert!(!st.pidincl(10));
    assert_eq!(st.getsockopt(10, SOL_SOCKET, SO_ERROR, true), GetStep::PendingError(None));
    assert_eq!(st.getsockopt(10, SOL_SOCKET, SO_ERROR, false), GetStep::Fail(libc::EINVAL));
    assert_eq!(st.getsockopt(10, SOL_AX25, AX25_WINDOW, true), GetStep::Zero(true));
    assert_eq!(st.getsockopt(10, SOL_AX25, AX25_WINDOW, false), GetStep::Zero(false));
    assert_eq!(st.getsockopt(10, SOL_SOCKET, 3, true), GetStep::PassThrough);
    let s = st.destroy_ax25_fd(10).unwrap();
    assert_eq!((s.window, s.paclen), (Some(4), Some(256)));
}

#[test]
fn errnos_of_calls() {
    assert_eq!(no_client_errno(Call::Listen), libc::ECONNREFUSED);
    assert_eq!(no_client_errno(Call::Connect), libc::ECONNREFUSED);
    assert_eq!(no_client_errno(Call::DgramOpen), libc::ECONNREFUSED);
    assert_eq!(no_client_errno(Call::Accept), libc::ECONNABORTED);
    assert_eq!(no_client_errno(Call::Send), libc::EIO);
    assert_eq!(no_call_errno(true), libc::EAGAIN);
    assert_eq!(no_call_errno(false), libc::ECONNABORTED);
    assert_eq!(connect_errno(true, Ok(())), libc::EINPROGRESS);
    assert_eq!(connect_errno(false, Ok(())), 0);
    assert_eq!(connect_errno(false, Err(5)), 5);
}

#[test]
fn early_recv_before_register_is_delivered_not_dropped() {
    let mut sink = InterposeSink::new();
    sink.on_recv(7, b"early ");
    assert!(matches!(sink.recv.flush(7), Flush::Nothing));
    sink.recv.register(7, 11);
    sink.on_recv(7, b"late");
    sink.on_close(7);
    // The pair takes it in pieces; the end comes last.
    let mut out = Vec::new();
    loop {
        match sink.recv.flush(7) {
            Flush::Write(fd, bytes) => {
                assert_eq!(fd, 11);
                let n = bytes.len().min(4);
                out.extend_from_slice(&bytes[..n]);
                sink.recv.written(7, n);
            }
            Flush::Shutdown(fd) => {
                assert_eq!(fd, 11);
                break;
            }
            Flush::Nothing => panic!("the end is owed"),
        }
    }
    assert_eq!(out, b"early late".to_vec());
    sink.forget(7);
    assert!(matches!(sink.recv.flush(7), Flush::Nothing));
}

#[test]
fn datagrams_are_queued_whole_and_in_order() {
    let mut sink = InterposeSink::new();
    assert!(matches!(sink.dgram.recv_one(8), DgramOutcome::NoHandle));
    sink.on_dgram(8, text("A"), None, b"one");
    assert!(matches!(sink.dgram.recv_one(8), DgramOutcome::NoHandle));
    assert_eq!(sink.dgram.signal_fd(8), None);
    sink.dgram.register(8, 10, 11);
    assert_eq!(sink.dgram.signal_fd(8), Some(11));
    sink.on_dgram(8, None, text("me"), b"two");
    match sink.dgram.recv_one(8) {
        DgramOutcome::Got(d) => {
            assert_eq!(d.data, b"one".to_vec());
            assert_eq!(d.source.as_deref(), Some("A"));
        }
        other => panic!("{other:?}"),
    }
    sink.on_close(8);
    match sink.dgram.recv_one(8) {
        DgramOutcome::Got(d) => assert_eq!(d.data, b"two".to_vec()),
        other => panic!("{other:?}"),
    }
    assert!(matches!(sink.dgram.recv_one(8), DgramOutcome::Eof));
    sink.forget(8);
    assert!(matches!(sink.dgram.recv_one(8), DgramOutcome::NoHandle));
}

#[test]
fn the_end_of_the_transport_ends_every_socket() {
    let mut sink = InterposeSink::new();
    sink.recv.register(1, 21);
    sink.recv.register(2, 22);
    sink.dgram.register(3, 30, 33);
    assert!(matches!(sink.dgram.recv_one(3), DgramOutcome::Empty));
    sink.on_disconnect();
    assert!(matches!(sink.recv.flush(1), Flush::Shutdown(21)));
    assert!(matches!(sink.recv.flush(2), Flush::Shutdown(22)));
    assert!(matches!(sink.dgram.recv_one(3), DgramOutcome::Eof));
    let mut handles = sink.recv.handles();
    handles.sort_unstable();
    assert_eq!(handles, vec![1, 2]);
    assert_eq!(sink.dgram.handles(), vec![3]);
}

#[test]
fn reported_calls_are_kept_for_their_listener() {
    let mut sink = InterposeSink::new();
    sink.on_accept(3, 70, text("A"), None);
    sink.on_accept(3, 71, None, text("B"));
    let first = sink.accepts(3).unwrap();
    assert_eq!((first.child_handle, first.remote.as_deref()), (70, Some("A")));
    assert!(sink.accepts(4).is_none());
    let second = sink.accepts(3).unwrap();
    assert_eq!((second.child_handle, second.local.as_deref()), (71, Some("B")));
    assert!(sink.accepts(3).is_none());
}

#[test]
fn a_datagram_socket_is_readable_while_there_is_something() {
    let mut sink = InterposeSink::new();
    sink.on_dgram(5, Some("M0ABC".to_string()), None, &[0xF0, 1]);
    assert!(!sink.dgram.ready(5));
    sink.dgram.register(5, 30, 31);
    assert!(sink.dgram.ready(5));
    assert!(matches!(sink.dgram.recv_one(5), DgramOutcome::Got(_)));
    assert!(!sink.dgram.ready(5));
    sink.on_close(5);
    assert!(sink.dgram.ready(5));
    assert!(matches!(sink.dgram.recv_one(5), DgramOutcome::Eof));
}

#[test]
fn a_held_socket_becomes_writable_once_its_link_is_decided() {
    assert_eq!(hold_step(true, None), Hold::Keep);
    assert_eq!(hold_step(true, Some(Ok(()))), Hold::OpenAndForward);
    assert_eq!(hold_step(true, Some(Err(libc::ECONNREFUSED))), Hold::Open);
    assert_eq!(hold_step(false, None), Hold::Keep);
    assert_eq!(hold_step(false, Some(Ok(()))), Hold::Keep);
    assert_eq!(hold_step(false, Some(Err(libc::ECONNRESET))), Hold::Keep);
}

#[test]
fn what_was_written_before_goes_out_first() {
    assert_eq!(in_order(b"ab".to_vec(), b"c"), b"abc".to_vec());
    assert_eq!(in_order(Vec::new(), b"c"), b"c".to_vec());
    let mut st = with_socket(false);
    st.listen_done(10, Ok(6)).unwrap();
    let mut s = SendCall::new(10, b"write\n".to_vec());
    let _ = s.next(&st, Event::Start);
    let _ = s.next(&st, Event::Client(true));
    match s.next(&st, Event::Written(b"STDIO-BANNER via dprintf\n".to_vec())) {
        Action::Send { handle: 6, bytes } => {
            assert_eq!(bytes, b"STDIO-BANNER via dprintf\nwrite\n");
        }
        other => panic!("{other:?}"),
    }
    // Only the data of this call counts as sent by it.
    assert!(matches!(s.next(&st, Event::Sent(Ok(()))), Action::Return(6)));
}

#[test]
fn a_sink_takes_each_push_where_it_belongs() {
    let mut sink = InterposeSink::new();
    sink.recv.register(3, 20);
    sink.dgram.register(5, 30, 31);
    sink.deliver(Push::Recv { handle: 3, data: b"ab".to_vec() });
    sink.deliver(Push::Status { handle: 3, flags: 2 });
    match sink.recv.flush(3) {
        Flush::Write(20, bytes) => assert_eq!(bytes, b"ab"),
        other => panic!("{other:?}"),
    }
    let source = Some("G0ABC-1".to_string());
    sink.deliver(Push::Dgram { handle: 5, source, dest: None, data: vec![0xF0, 1] });
    match sink.dgram.recv_one(5) {
        DgramOutcome::Got(d) => {
            assert_eq!((d.source.as_deref(), d.data), (Some("G0ABC-1"), vec![0xF0, 1]));
        }
        other => panic!("{other:?}"),
    }
    sink.deliver(Push::Accept { listener: 4, child: 9, remote: None, local: None });
    assert_eq!(sink.accepts(4).map(|a| a.child_handle), Some(9));
    sink.deliver(Push::Close { handle: 5 });
    assert!(matches!(sink.dgram.recv_one(5), DgramOutcome::Eof));
    sink.recv.written(3, 2);
    sink.deliver(Push::Close { handle: 3 });
    assert!(matches!(sink.recv.flush(3), Flush::Shutdown(20)));
}
