//! The sockets that are served, and what each call decides.
//!
//! The numbers of socket flags and options hold on the targets that the errno values
//! are for.

use std::collections::HashMap;

use vstd::prelude::*;

use super::addr::{AF_AX25, SOCK_DGRAM, SOCK_SEQPACKET, SOL_AX25};
use super::sink::{DatagramModel, DgramOutcome};
use crate::errno::{
    EAGAIN, EBADF, ECONNABORTED, ECONNREFUSED, EDESTADDRREQ, EINPROGRESS, EINVAL, EIO, ENOTCONN,
};
use crate::rhp::client::{OpenResult, RhpError};
use crate::rhp::messages::string_view;
use crate::rhpv2::client::AcceptInfo;

verus! {

broadcast use vstd::std_specs::hash::group_hash_axioms;

/// The option that sets the window.
pub const AX25_WINDOW: i32 = 1;

/// The option by which an application's buffers carry the protocol id.
pub const AX25_PIDINCL: i32 = 8;

/// The option that sets the packet length.
pub const AX25_PACLEN: i32 = 10;

/// The protocol id of frames without a network layer.
pub const AX25_PID_NO_L3: u8 = 0xF0;

/// The flag of a socket type that closes the descriptor on exec.
pub const SOCK_CLOEXEC: i32 = 0x80000;

/// The flag of a socket type that makes the descriptor non-blocking.
pub const SOCK_NONBLOCK: i32 = 0x800;

/// The level of general socket options.
pub const SOL_SOCKET: i32 = 1;

/// The option that reports the pending error of a socket.
pub const SO_ERROR: i32 = 4;

/// One AX.25 socket.
#[derive(Debug)]
pub struct FdState {
    /// The application's end of the socket pair.
    pub app_fd: i32,
    /// Our end of the socket pair.
    pub inner_fd: i32,
    /// The handle, once there is one.
    pub handle: Option<u64>,
    /// The local callsign.
    pub local: Option<String>,
    /// The callsign of the peer, or the default destination.
    pub remote: Option<String>,
    pub listening: bool,
    pub paclen: Option<u32>,
    pub window: Option<u32>,
    /// A connectionless socket.
    pub dgram: bool,
    /// The application's buffers carry the protocol id.
    pub pidincl: bool,
}

/// The mathematical value of an `FdState`.
#[verifier::ext_equal]
pub struct FdModel {
    pub app_fd: i32,
    pub inner_fd: i32,
    pub handle: Option<u64>,
    pub local: Option<Seq<char>>,
    pub remote: Option<Seq<char>>,
    pub listening: bool,
    pub paclen: Option<u32>,
    pub window: Option<u32>,
    pub dgram: bool,
    pub pidincl: bool,
}

impl View for FdState {
    type V = FdModel;

    open spec fn view(&self) -> FdModel {
        FdModel {
            app_fd: self.app_fd,
            inner_fd: self.inner_fd,
            handle: self.handle,
            local: string_view(self.local),
            remote: string_view(self.remote),
            listening: self.listening,
            paclen: self.paclen,
            window: self.window,
            dgram: self.dgram,
            pidincl: self.pidincl,
        }
    }
}

/// The AX.25 sockets, by the application's descriptor.
pub type Fds = Map<i32, FdModel>;

/// A socket that was just made.
pub open spec fn fresh(app_fd: i32, inner_fd: i32, dgram: bool) -> FdModel {
    FdModel {
        app_fd,
        inner_fd,
        handle: None,
        local: None,
        remote: None,
        listening: false,
        paclen: None,
        window: None,
        dgram,
        pidincl: false,
    }
}

/// The sockets once one has been changed, if it is there.
pub open spec fn changed(m: Fds, fd: i32, to: FdModel) -> Fds {
    if m.contains_key(fd) {
        m.insert(fd, to)
    } else {
        m
    }
}

/// What kind of socket a call asks for.
#[derive(Debug, Clone, Copy, PartialEq, Eq, Structural)]
pub enum Route {
    /// Not an AX.25 socket: the call goes to the system.
    PassThrough,
    /// A connected AX.25 socket.
    Stream,
    /// A connectionless AX.25 socket.
    Dgram,
}

/// What kind of socket a domain and a type ask for, whatever flags the type has.
pub open spec fn socket_kind(domain: i32, ty: i32) -> Route {
    let base = ty & !(SOCK_CLOEXEC | SOCK_NONBLOCK);
    if domain == AF_AX25 && base == SOCK_SEQPACKET {
        Route::Stream
    } else if domain == AF_AX25 && base == SOCK_DGRAM {
        Route::Dgram
    } else {
        Route::PassThrough
    }
}

/// What kind of socket `socket` is asked for.
pub fn socket(domain: i32, ty: i32) -> (r: Route)
    ensures
        r == socket_kind(domain, ty),
{
    let base: i32 = ty & !(SOCK_CLOEXEC | SOCK_NONBLOCK);
    if domain == AF_AX25 && base == SOCK_SEQPACKET {
        Route::Stream
    } else if domain == AF_AX25 && base == SOCK_DGRAM {
        Route::Dgram
    } else {
        Route::PassThrough
    }
}

/// The calls that need the engine.
#[derive(Debug, Clone, Copy, PartialEq, Eq, Structural)]
pub enum Call {
    Listen,
    Connect,
    DgramOpen,
    Accept,
    Send,
}

/// The errno of a call where the engine cannot be reached.
pub fn no_client_errno(call: Call) -> (r: i32)
    ensures
        r == (match call {
            Call::Listen | Call::Connect | Call::DgramOpen => ECONNREFUSED,
            Call::Accept => ECONNABORTED,
            Call::Send => EIO,
        }),
{
    match call {
        Call::Listen | Call::Connect | Call::DgramOpen => ECONNREFUSED,
        Call::Accept => ECONNABORTED,
        Call::Send => EIO,
    }
}

/// What `bind` does next.
#[derive(Debug, Clone, Copy, PartialEq, Eq, Structural)]
pub enum BindStep {
    PassThrough,
    /// It is done.
    Done,
    /// The handle of the datagram socket is to be opened.
    EnsureDgram,
}

/// What `listen` does next.
#[derive(Debug)]
pub enum ListenStep {
    PassThrough,
    Fail(i32),
    /// A listener for this callsign is to be opened.
    Open(String),
}

/// What `connect` does next.
#[derive(Debug)]
pub enum ConnectStep {
    PassThrough,
    Fail(i32),
    /// The handle of the datagram socket is to be opened, and this is then its
    /// default destination.
    EnsureDgram(String),
    /// A link is to be opened.
    Open { local: String, remote: String },
}

/// What a successful `open` leaves to do.
#[derive(Debug, Clone, Copy, PartialEq, Eq, Structural)]
pub struct Opened {
    pub handle: u64,
    pub app_fd: i32,
    pub inner_fd: i32,
}

/// What `accept` does next.
#[derive(Debug)]
pub enum AcceptStep {
    PassThrough,
    Fail(i32),
    /// A call on this listener is to be waited for.
    Wait { listener: u64, local: Option<String> },
}

/// What `getsockopt` does next.
#[derive(Debug, Clone, Copy, PartialEq, Eq, Structural)]
pub enum GetStep {
    PassThrough,
    Fail(i32),
    /// The pending error of this handle is reported; 0 where there is none.
    PendingError(Option<u64>),
    /// Success; a zero is reported where there is room for it.
    Zero(bool),
}

/// What opening the handle of a datagram socket does next.
#[derive(Debug)]
pub enum DgramStep {
    Fail(i32),
    /// It is open.
    Have(u64),
    /// It is to be opened, and bound where there is a callsign.
    Open(Option<String>),
}

/// What became of a datagram socket's handle that was opened.
#[derive(Debug, Clone, Copy, PartialEq, Eq, Structural)]
pub enum DgramOpened {
    /// The socket is gone: the handle is to be closed, the errno is `EBADF`.
    Gone,
    /// The socket has this handle already: the new one is to be closed.
    Lost(u64),
    /// It is the socket's handle now, and is to be registered.
    Stored { app_fd: i32, inner_fd: i32 },
}

/// Where a datagram is to go.
#[derive(Debug)]
pub enum Dest {
    /// To the default destination.
    Default,
    /// To the address that was given; `None` where no callsign could be read.
    Address(Option<String>),
}

/// A datagram as it goes to the engine.
#[derive(Debug)]
pub struct Outgoing {
    pub remote: String,
    pub local: String,
    pub wire: Vec<u8>,
}

/// The mathematical value of an `Outgoing`.
#[verifier::ext_equal]
pub struct OutgoingModel {
    pub remote: Seq<char>,
    pub local: Seq<char>,
    pub wire: Seq<u8>,
}

impl View for Outgoing {
    type V = OutgoingModel;

    open spec fn view(&self) -> OutgoingModel {
        OutgoingModel { remote: self.remote@, local: self.local@, wire: self.wire@ }
    }
}

/// What a look into the inbox of a datagram socket leaves to do.
#[derive(Debug)]
pub enum DgramRecv {
    /// These bytes are delivered, from this sender.
    Deliver { payload: Vec<u8>, source: String },
    /// The end of the stream.
    Eof,
    Fail(i32),
    /// The application waits on.
    Wait,
}

/// The callsign to call from: that of the socket, else the configured one, else
/// "NOCALL".
pub open spec fn source_call(local: Option<Seq<char>>, configured: Option<String>) -> Seq<char> {
    match local {
        Some(c) => c,
        None => match configured {
            Some(c) => c@,
            None => "NOCALL"@,
        },
    }
}

/// The callsign to call from.
fn pick_source(local: &Option<String>, configured: Option<String>) -> (r: String)
    ensures
        r@ == source_call(string_view(*local), configured),
{
    match local {
        Some(c) => c.clone(),
        None => match configured {
            Some(c) => c,
            None => "NOCALL".to_owned(),
        },
    }
}

fn copy_text(s: &Option<String>) -> (r: Option<String>)
    ensures
        string_view(r) == string_view(*s),
{
    match s {
        Some(t) => Some(t.clone()),
        None => None,
    }
}

/// A payload on the wire: with the protocol id in front, where the application has
/// not put one there itself.
pub open spec fn wire_payload(data: Seq<u8>, pidincl: bool) -> Seq<u8> {
    if pidincl {
        data
    } else {
        seq![AX25_PID_NO_L3] + data
    }
}

/// A payload for the application: without the protocol id, unless it asked for it.
pub open spec fn app_payload(wire: Seq<u8>, pidincl: bool) -> Seq<u8> {
    if pidincl || wire.len() == 0 {
        wire
    } else {
        wire.drop_first()
    }
}

/// The AX.25 sockets.
pub struct State {
    fds: HashMap<i32, FdState>,
}

impl View for State {
    type V = Fds;

    closed spec fn view(&self) -> Fds {
        self.fds@.map_values(|s: FdState| s@)
    }
}

impl State {
    pub fn new() -> (r: State)
        ensures
            r@ == Map::<i32, FdModel>::empty(),
    {
        let r = State { fds: HashMap::new() };
        assert(r@ =~= Map::empty());
        r
    }

    /// Whether a descriptor is one of ours.
    pub fn is_ax25_fd(&self, fd: i32) -> (r: bool)
        ensures
            r == self@.contains_key(fd),
    {
        self.fds.contains_key(&fd)
    }

    /// Whether a descriptor is a connectionless socket of ours.
    pub fn is_dgram_fd(&self, fd: i32) -> (r: bool)
        ensures
            r == (self@.contains_key(fd) && self@[fd].dgram),
    {
        match self.fds.get(&fd) {
            Some(s) => {
                assert(self@[fd] == s@);
                s.dgram
            },
            None => false,
        }
    }

    /// What kind of socket a descriptor is.
    pub fn route(&self, fd: i32) -> (r: Route)
        ensures
            r == (if !self@.contains_key(fd) {
                Route::PassThrough
            } else if self@[fd].dgram {
                Route::Dgram
            } else {
                Route::Stream
            }),
    {
        match self.fds.get(&fd) {
            Some(s) => {
                assert(self@[fd] == s@);
                if s.dgram {
                    Route::Dgram
                } else {
                    Route::Stream
                }
            },
            None => Route::PassThrough,
        }
    }

    /// Takes in a socket pair as a new AX.25 socket.
    pub fn create_ax25_fd(&mut self, app_fd: i32, inner_fd: i32, dgram: bool)
        ensures
            final(self)@ == old(self)@.insert(app_fd, fresh(app_fd, inner_fd, dgram)),
    {
        let s = FdState {
            app_fd,
            inner_fd,
            handle: None,
            local: None,
            remote: None,
            listening: false,
            paclen: None,
            window: None,
            dgram,
            pidincl: false,
        };
        assert(s@ =~= fresh(app_fd, inner_fd, dgram));
        self.fds.insert(app_fd, s);
        assert(self@ =~= old(self)@.insert(app_fd, fresh(app_fd, inner_fd, dgram)));
    }

    /// Forgets a socket, and hands out what is to be closed.
    pub fn destroy_ax25_fd(&mut self, fd: i32) -> (r: Option<FdState>)
        ensures
            match r {
                Some(s) => old(self)@.contains_key(fd) && s@ == old(self)@[fd],
                None => !old(self)@.contains_key(fd),
            },
            final(self)@ == old(self)@.remove(fd),
    {
        let r = self.fds.remove(&fd);
        assert(self@ =~= old(self)@.remove(fd));
        r
    }

    /// Replaces a socket.
    fn put(&mut self, fd: i32, s: FdState)
        ensures
            final(self)@ == old(self)@.insert(fd, s@),
    {
        self.fds.insert(fd, s);
        assert(self@ =~= old(self)@.insert(fd, s@));
    }

    /// `bind`: notes the callsign, where one could be read. A connectionless socket
    /// starts to receive at once.
    pub fn bind(&mut self, fd: i32, call: Option<String>) -> (r: BindStep)
        ensures
            r == (if !old(self)@.contains_key(fd) {
                BindStep::PassThrough
            } else if old(self)@[fd].dgram {
                BindStep::EnsureDgram
            } else {
                BindStep::Done
            }),
            final(self)@ == (match call {
                Some(c) => changed(
                    old(self)@,
                    fd,
                    FdModel { local: Some(c@), ..old(self)@[fd] },
                ),
                None => old(self)@,
            }),
    {
        let mut s = match self.destroy_ax25_fd(fd) {
            Some(s) => s,
            None => {
                assert(self@ =~= old(self)@);
                return BindStep::PassThrough;
            },
        };
        if call.is_some() {
            s.local = call;
        }
        let r = if s.dgram {
            BindStep::EnsureDgram
        } else {
            BindStep::Done
        };
        self.put(fd, s);
        assert(self@ =~= (match call {
            Some(c) => changed(old(self)@, fd, FdModel { local: Some(c@), ..old(self)@[fd] }),
            None => old(self)@,
        }));
        r
    }

    /// `listen`: needs a callsign.
    pub fn listen(&self, fd: i32) -> (r: ListenStep)
        ensures
            if !self@.contains_key(fd) {
                r is PassThrough
            } else {
                match self@[fd].local {
                    Some(c) => r matches ListenStep::Open(l) && l@ == c,
                    None => r == ListenStep::Fail(EINVAL),
                }
            },
    {
        match self.fds.get(&fd) {
            Some(s) => {
                assert(self@[fd] == s@);
                match &s.local {
                    Some(c) => ListenStep::Open(c.clone()),
                    None => ListenStep::Fail(EINVAL),
                }
            },
            None => ListenStep::PassThrough,
        }
    }

    /// The end of `listen`: with a handle the socket is a listener.
    pub fn listen_done(&mut self, fd: i32, result: Result<u64, RhpError>) -> (r: Result<(), i32>)
        ensures
            r == (match result {
                Ok(_) => Ok(()),
                Err(e) => Err(e@.errno()),
            }),
            final(self)@ == (match result {
                Ok(h) => changed(
                    old(self)@,
                    fd,
                    FdModel { handle: Some(h), listening: true, ..old(self)@[fd] },
                ),
                Err(_) => old(self)@,
            }),
    {
        let handle: u64 = match result {
            Ok(h) => h,
            Err(e) => {
                return Err(e.to_errno());
            },
        };
        match self.destroy_ax25_fd(fd) {
            Some(s) => {
                let mut s = s;
                s.handle = Some(handle);
                s.listening = true;
                self.put(fd, s);
            },
            None => {},
        }
        assert(self@ =~= changed(
            old(self)@,
            fd,
            FdModel { handle: Some(handle), listening: true, ..old(self)@[fd] },
        ));
        Ok(())
    }

    /// `connect`: needs a remote callsign. A connectionless socket only notes its
    /// default destination. Otherwise a link is opened, from the socket's own
    /// callsign, else from the configured one, else from "NOCALL".
    pub fn connect(&self, fd: i32, remote: Option<String>, configured: Option<String>) -> (r:
        ConnectStep)
        ensures
            if !self@.contains_key(fd) {
                r is PassThrough
            } else {
                match remote {
                    None => r == ConnectStep::Fail(EINVAL),
                    Some(c) => if self@[fd].dgram {
                        r matches ConnectStep::EnsureDgram(d) && d@ == c@
                    } else {
                        r matches ConnectStep::Open { local: l, remote: m } && l@ == source_call(
                            self@[fd].local,
                            configured,
                        ) && m@ == c@
                    },
                }
            },
    {
        let s = match self.fds.get(&fd) {
            Some(s) => s,
            None => {
                return ConnectStep::PassThrough;
            },
        };
        assert(self@[fd] == s@);
        match remote {
            None => ConnectStep::Fail(EINVAL),
            Some(c) => {
                if s.dgram {
                    ConnectStep::EnsureDgram(c)
                } else {
                    ConnectStep::Open { local: pick_source(&s.local, configured), remote: c }
                }
            },
        }
    }

    /// Notes the default destination of a connectionless socket.
    pub fn connect_dgram(&mut self, fd: i32, remote: String)
        ensures
            final(self)@ == changed(
                old(self)@,
                fd,
                FdModel { remote: Some(remote@), ..old(self)@[fd] },
            ),
    {
        match self.destroy_ax25_fd(fd) {
            Some(s) => {
                let mut s = s;
                s.remote = Some(remote);
                self.put(fd, s);
            },
            None => {},
        }
        assert(self@ =~= changed(
            old(self)@,
            fd,
            FdModel { remote: Some(remote@), ..old(self)@[fd] },
        ));
    }

    /// Takes in what `open` returned: on success the socket has a handle and a
    /// peer, unless it was closed meanwhile.
    pub fn connect_opened(
        &mut self,
        fd: i32,
        remote: String,
        opened: Result<OpenResult, RhpError>,
    ) -> (r: Result<Opened, i32>)
        ensures
            match opened {
                Err(e) => r == Err::<Opened, i32>(e@.errno()) && final(self)@ == old(self)@,
                Ok(o) => if old(self)@.contains_key(fd) {
                    &&& r == Ok::<Opened, i32>(
                        Opened {
                            handle: o.handle,
                            app_fd: old(self)@[fd].app_fd,
                            inner_fd: old(self)@[fd].inner_fd,
                        },
                    )
                    &&& final(self)@ == old(self)@.insert(
                        fd,
                        FdModel {
                            handle: Some(o.handle),
                            remote: Some(remote@),
                            ..old(self)@[fd]
                        },
                    )
                } else {
                    r == Err::<Opened, i32>(EBADF) && final(self)@ == old(self)@
                },
            },
    {
        let handle: u64 = match opened {
            Ok(o) => o.handle,
            Err(e) => {
                return Err(e.to_errno());
            },
        };
        match self.destroy_ax25_fd(fd) {
            Some(s) => {
                let mut s = s;
                s.handle = Some(handle);
                s.remote = Some(remote);
                let r = Opened { handle, app_fd: s.app_fd, inner_fd: s.inner_fd };
                self.put(fd, s);
                assert(self@ =~= old(self)@.insert(
                    fd,
                    FdModel { handle: Some(handle), remote: Some(remote@), ..old(self)@[fd] },
                ));
                Ok(r)
            },
            None => {
                assert(self@ =~= old(self)@);
                Err(EBADF)
            },
        }
    }

    /// `accept`: needs a listener.
    pub fn accept(&self, fd: i32) -> (r: AcceptStep)
        ensures
            if !self@.contains_key(fd) {
                r is PassThrough
            } else {
                match self@[fd].handle {
                    Some(h) => r matches AcceptStep::Wait { listener: l, local: c } && l == h
                        && string_view(c) == self@[fd].local,
                    None => r == AcceptStep::Fail(EINVAL),
                }
            },
    {
        match self.fds.get(&fd) {
            Some(s) => {
                assert(self@[fd] == s@);
                match s.handle {
                    Some(h) => AcceptStep::Wait { listener: h, local: copy_text(&s.local) },
                    None => AcceptStep::Fail(EINVAL),
                }
            },
            None => AcceptStep::PassThrough,
        }
    }

    /// Makes a new socket the one of an accepted call: with its handle, the caller
    /// as peer, and the callsign that was called, else that of the listener. Hands
    /// out the caller's callsign, where it is known.
    pub fn accept_child(&mut self, child_fd: i32, info: AcceptInfo, local: Option<String>) -> (r:
        Option<String>)
        ensures
            string_view(r) == string_view(info.remote),
            final(self)@ == changed(
                old(self)@,
                child_fd,
                FdModel {
                    handle: Some(info.child_handle),
                    remote: string_view(info.remote),
                    local: if info.local is Some {
                        string_view(info.local)
                    } else {
                        string_view(local)
                    },
                    ..old(self)@[child_fd]
                },
            ),
    {
        let peer = copy_text(&info.remote);
        let mine = if info.local.is_some() {
            copy_text(&info.local)
        } else {
            local
        };
        match self.destroy_ax25_fd(child_fd) {
            Some(s) => {
                let mut s = s;
                s.handle = Some(info.child_handle);
                s.remote = copy_text(&info.remote);
                s.local = mine;
                self.put(child_fd, s);
            },
            None => {},
        }
        assert(self@ =~= changed(
            old(self)@,
            child_fd,
            FdModel {
                handle: Some(info.child_handle),
                remote: string_view(info.remote),
                local: if info.local is Some {
                    string_view(info.local)
                } else {
                    string_view(local)
                },
                ..old(self)@[child_fd]
            },
        ));
        peer
    }

    /// `getsockname`: the socket's own callsign, empty where it has none; `None`
    /// where it is not ours.
    pub fn getsockname(&self, fd: i32) -> (r: Option<String>)
        ensures
            string_view(r) == (if !self@.contains_key(fd) {
                None
            } else {
                match self@[fd].local {
                    Some(c) => Some(c),
                    None => Some(Seq::<char>::empty()),
                }
            }),
    {
        match self.fds.get(&fd) {
            Some(s) => {
                assert(self@[fd] == s@);
                match &s.local {
                    Some(c) => Some(c.clone()),
                    None => Some(String::new()),
                }
            },
            None => None,
        }
    }

    /// `getpeername`: the peer's callsign, empty where there is none; `None` where
    /// the socket is not ours.
    pub fn getpeername(&self, fd: i32) -> (r: Option<String>)
        ensures
            string_view(r) == (if !self@.contains_key(fd) {
                None
            } else {
                match self@[fd].remote {
                    Some(c) => Some(c),
                    None => Some(Seq::<char>::empty()),
                }
            }),
    {
        match self.fds.get(&fd) {
            Some(s) => {
                assert(self@[fd] == s@);
                match &s.remote {
                    Some(c) => Some(c.clone()),
                    None => Some(String::new()),
                }
            },
            None => None,
        }
    }

    /// The peer of a socket, which `recvfrom` reports where it is known.
    pub fn peer(&self, fd: i32) -> (r: Option<String>)
        ensures
            string_view(r) == (if self@.contains_key(fd) {
                self@[fd].remote
            } else {
                None
            }),
    {
        match self.fds.get(&fd) {
            Some(s) => {
                assert(self@[fd] == s@);
                copy_text(&s.remote)
            },
            None => None,
        }
    }

    /// `setsockopt`: whether the socket is ours; every option of ours is accepted.
    /// Of the AX.25 options the window, the packet length and the protocol id
    /// setting are noted, where there is a value.
    pub fn setsockopt(&mut self, fd: i32, level: i32, optname: i32, value: Option<u32>) -> (r: bool)
        ensures
            r == old(self)@.contains_key(fd),
            final(self)@ == changed(
                old(self)@,
                fd,
                option_set(old(self)@[fd], level, optname, value),
            ),
    {
        let mut s = match self.destroy_ax25_fd(fd) {
            Some(s) => s,
            None => {
                assert(self@ =~= old(self)@);
                return false;
            },
        };
        if level == SOL_AX25 {
            match value {
                Some(v) => {
                    if optname == AX25_WINDOW {
                        s.window = Some(v);
                    } else if optname == AX25_PACLEN {
                        s.paclen = Some(v);
                    } else if optname == AX25_PIDINCL {
                        s.pidincl = v != 0;
                    }
                },
                None => {},
            }
        }
        assert(s@ =~= option_set(old(self)@[fd], level, optname, value));
        self.put(fd, s);
        assert(self@ =~= changed(
            old(self)@,
            fd,
            option_set(old(self)@[fd], level, optname, value),
        ));
        true
    }

    /// `getsockopt`: reports the pending error of a connect, and zero for every
    /// AX.25 option; other options are those of the socket pair. `room` says
    /// whether the caller has room for a value.
    pub fn getsockopt(&self, fd: i32, level: i32, optname: i32, room: bool) -> (r: GetStep)
        ensures
            r == (if !self@.contains_key(fd) {
                GetStep::PassThrough
            } else if level == SOL_SOCKET && optname == SO_ERROR {
                if room {
                    GetStep::PendingError(self@[fd].handle)
                } else {
                    GetStep::Fail(EINVAL)
                }
            } else if level == SOL_AX25 {
                GetStep::Zero(room)
            } else {
                GetStep::PassThrough
            }),
    {
        let s = match self.fds.get(&fd) {
            Some(s) => s,
            None => {
                return GetStep::PassThrough;
            },
        };
        assert(self@[fd] == s@);
        if level == SOL_SOCKET && optname == SO_ERROR {
            if room {
                GetStep::PendingError(s.handle)
            } else {
                GetStep::Fail(EINVAL)
            }
        } else if level == SOL_AX25 {
            GetStep::Zero(room)
        } else {
            GetStep::PassThrough
        }
    }

    /// The handle to send on; `ENOTCONN` where there is none.
    pub fn ax25_send(&self, fd: i32) -> (r: Result<u64, i32>)
        ensures
            r == (if self@.contains_key(fd) && self@[fd].handle is Some {
                Ok(self@[fd].handle->Some_0)
            } else {
                Err(ENOTCONN)
            }),
    {
        match self.handle_of(fd) {
            Some(h) => Ok(h),
            None => Err(ENOTCONN),
        }
    }

    /// The handle of a socket.
    pub fn handle_of(&self, fd: i32) -> (r: Option<u64>)
        ensures
            r == (if self@.contains_key(fd) {
                self@[fd].handle
            } else {
                None
            }),
    {
        match self.fds.get(&fd) {
            Some(s) => {
                assert(self@[fd] == s@);
                s.handle
            },
            None => None,
        }
    }

    /// The handle of a connectionless socket, or what opening it takes.
    pub fn ensure_dgram_handle(&self, fd: i32) -> (r: DgramStep)
        ensures
            if !self@.contains_key(fd) {
                r == DgramStep::Fail(EBADF)
            } else {
                match self@[fd].handle {
                    Some(h) => r == DgramStep::Have(h),
                    None => r matches DgramStep::Open(c) && string_view(c) == self@[fd].local,
                }
            },
    {
        match self.fds.get(&fd) {
            Some(s) => {
                assert(self@[fd] == s@);
                match s.handle {
                    Some(h) => DgramStep::Have(h),
                    None => DgramStep::Open(copy_text(&s.local)),
                }
            },
            None => DgramStep::Fail(EBADF),
        }
    }

    /// Takes in the handle that was opened for a connectionless socket: it becomes
    /// the socket's, unless another one was faster or the socket is gone.
    pub fn dgram_opened(&mut self, fd: i32, handle: u64) -> (r: DgramOpened)
        ensures
            if !old(self)@.contains_key(fd) {
                r == DgramOpened::Gone && final(self)@ == old(self)@
            } else {
                match old(self)@[fd].handle {
                    Some(h) => r == DgramOpened::Lost(h) && final(self)@ == old(self)@,
                    None => r == (DgramOpened::Stored {
                        app_fd: old(self)@[fd].app_fd,
                        inner_fd: old(self)@[fd].inner_fd,
                    }) && final(self)@ == old(self)@.insert(
                        fd,
                        FdModel { handle: Some(handle), ..old(self)@[fd] },
                    ),
                }
            },
    {
        let s = match self.destroy_ax25_fd(fd) {
            Some(s) => s,
            None => {
                assert(self@ =~= old(self)@);
                return DgramOpened::Gone;
            },
        };
        let mut s = s;
        match s.handle {
            Some(h) => {
                self.put(fd, s);
                assert(self@ =~= old(self)@);
                DgramOpened::Lost(h)
            },
            None => {
                s.handle = Some(handle);
                let r = DgramOpened::Stored { app_fd: s.app_fd, inner_fd: s.inner_fd };
                self.put(fd, s);
                assert(self@ =~= old(self)@.insert(
                    fd,
                    FdModel { handle: Some(handle), ..old(self)@[fd] },
                ));
                r
            },
        }
    }

    /// The datagram to send: to the address that was given, else to the default
    /// destination; with the protocol id in front, unless the application's buffer
    /// carries it. An empty one cannot be sent.
    pub fn ax25_dgram_send(
        &self,
        fd: i32,
        dest: Dest,
        data: &[u8],
        configured: Option<String>,
    ) -> (r: Result<Outgoing, i32>)
        ensures
            match r {
                Ok(o) => datagram_for(self@, fd, dest, data@, configured) == Ok::<
                    OutgoingModel,
                    i32,
                >(o@),
                Err(e) => datagram_for(self@, fd, dest, data@, configured) == Err::<
                    OutgoingModel,
                    i32,
                >(e),
            },
    {
        let s = match self.fds.get(&fd) {
            Some(s) => s,
            None => {
                return Err(EBADF);
            },
        };
        assert(self@[fd] == s@);
        let remote = match dest {
            Dest::Address(Some(c)) => c,
            Dest::Address(None) => {
                return Err(EINVAL);
            },
            Dest::Default => match &s.remote {
                Some(c) => c.clone(),
                None => {
                    return Err(EDESTADDRREQ);
                },
            },
        };
        let local = pick_source(&s.local, configured);
        let mut wire: Vec<u8> = Vec::new();
        if !s.pidincl {
            wire.push(AX25_PID_NO_L3);
        }
        wire.extend_from_slice(data);
        assert(wire@ =~= wire_payload(data@, s.pidincl));
        if wire.len() == 0 {
            return Err(EINVAL);
        }
        Ok(Outgoing { remote, local, wire })
    }

    /// Whether an application's buffers carry the protocol id.
    pub fn pidincl(&self, fd: i32) -> (r: bool)
        ensures
            r == (self@.contains_key(fd) && self@[fd].pidincl),
    {
        match self.fds.get(&fd) {
            Some(s) => {
                assert(self@[fd] == s@);
                s.pidincl
            },
            None => false,
        }
    }
}

/// What setting an option does to a socket.
pub open spec fn option_set(s: FdModel, level: i32, optname: i32, value: Option<u32>) -> FdModel {
    if level != SOL_AX25 || value is None {
        s
    } else if optname == AX25_WINDOW {
        FdModel { window: value, ..s }
    } else if optname == AX25_PACLEN {
        FdModel { paclen: value, ..s }
    } else if optname == AX25_PIDINCL {
        FdModel { pidincl: value->Some_0 != 0, ..s }
    } else {
        s
    }
}

/// Where a datagram goes, or why it cannot.
pub open spec fn destination(s: FdModel, dest: Dest) -> Result<Seq<char>, i32> {
    match dest {
        Dest::Address(Some(c)) => Ok(c@),
        Dest::Address(None) => Err(EINVAL),
        Dest::Default => match s.remote {
            Some(c) => Ok(c),
            None => Err(EDESTADDRREQ),
        },
    }
}

/// The datagram to send, or why there is none.
pub open spec fn datagram_for(
    m: Fds,
    fd: i32,
    dest: Dest,
    data: Seq<u8>,
    configured: Option<String>,
) -> Result<OutgoingModel, i32> {
    if !m.contains_key(fd) {
        Err(EBADF)
    } else {
        match destination(m[fd], dest) {
            Err(e) => Err(e),
            Ok(remote) => if wire_payload(data, m[fd].pidincl).len() == 0 {
                Err(EINVAL)
            } else {
                Ok(
                    OutgoingModel {
                        remote,
                        local: source_call(m[fd].local, configured),
                        wire: wire_payload(data, m[fd].pidincl),
                    },
                )
            },
        }
    }
}

/// What `connect` returns in the end: 0 or an errno. A non-blocking socket is told
/// that the connect is in progress; otherwise the outcome counts.
pub fn connect_errno(nonblocking: bool, outcome: Result<(), i32>) -> (r: i32)
    ensures
        r == (if nonblocking {
            EINPROGRESS
        } else {
            match outcome {
                Ok(_) => 0,
                Err(e) => e,
            }
        }),
{
    if nonblocking {
        return EINPROGRESS;
    }
    match outcome {
        Ok(()) => 0,
        Err(e) => e,
    }
}

/// The errno of `accept` where there is no call: a non-blocking socket may try
/// again; otherwise the transport has ended.
pub fn no_call_errno(nonblocking: bool) -> (r: i32)
    ensures
        r == (if nonblocking {
            EAGAIN
        } else {
            ECONNABORTED
        }),
{
    if nonblocking {
        EAGAIN
    } else {
        ECONNABORTED
    }
}

/// What a datagram's reader gets of it: the payload, cut to the room there is.
pub open spec fn delivered(d: DatagramModel, pidincl: bool, room: nat) -> Seq<u8> {
    let p = app_payload(d.data, pidincl);
    if p.len() <= room {
        p
    } else {
        p.take(room as int)
    }
}

/// What to do after a look into the inbox of a datagram socket.
pub open spec fn recv_step(
    outcome: DgramOutcome,
    pidincl: bool,
    nonblocking: bool,
    room: nat,
    r: DgramRecv,
) -> bool {
    match outcome {
        DgramOutcome::Got(d) => r matches DgramRecv::Deliver { payload: p, source: s } && p@
            == delivered(d@, pidincl, room) && s@ == (match d@.source {
            Some(c) => c,
            None => Seq::<char>::empty(),
        }),
        DgramOutcome::Eof => r is Eof,
        DgramOutcome::NoHandle => r == DgramRecv::Fail(ENOTCONN),
        DgramOutcome::Empty => if nonblocking {
            r == DgramRecv::Fail(EAGAIN)
        } else {
            r is Wait
        },
    }
}

/// What to do after a look into the inbox of a datagram socket: deliver a datagram
/// without its protocol id, unless the application asked for it, and cut to the
/// room there is; or else report the end, an errno, or wait on.
pub fn ax25_dgram_recv(outcome: DgramOutcome, pidincl: bool, nonblocking: bool, room: usize) -> (r:
    DgramRecv)
    ensures
        recv_step(outcome, pidincl, nonblocking, room as nat, r),
{
    match outcome {
        DgramOutcome::Got(d) => {
            let skip: usize = if pidincl || d.data.len() == 0 {
                0
            } else {
                1
            };
            let end: usize = if d.data.len() - skip <= room {
                d.data.len()
            } else {
                skip + room
            };
            let payload = vstd::slice::slice_to_vec(
                vstd::slice::slice_subrange(d.data.as_slice(), skip, end),
            );
            assert(payload@ =~= delivered(d@, pidincl, room as nat));
            let source = match d.source {
                Some(c) => c,
                None => String::new(),
            };
            DgramRecv::Deliver { payload, source }
        },
        DgramOutcome::Eof => DgramRecv::Eof,
        DgramOutcome::NoHandle => DgramRecv::Fail(ENOTCONN),
        DgramOutcome::Empty => {
            if nonblocking {
                DgramRecv::Fail(EAGAIN)
            } else {
                DgramRecv::Wait
            }
        },
    }
}

/// What one application sends as a datagram, another one gets, where both carry
/// the protocol id in their buffers or both do not, and there is room for it.
pub proof fn law_datagram_payload_round_trip(data: Seq<u8>, source: Option<Seq<char>>, pidincl: bool)
    ensures
        delivered(
            DatagramModel { source, data: wire_payload(data, pidincl) },
            pidincl,
            data.len(),
        ) == data,
{
    assert(app_payload(wire_payload(data, pidincl), pidincl) =~= data);
}

/// A datagram that goes out is never empty: it holds at least its protocol id.
pub proof fn law_no_empty_datagram(
    m: Fds,
    fd: i32,
    dest: Dest,
    data: Seq<u8>,
    configured: Option<String>,
)
    ensures
        datagram_for(m, fd, dest, data, configured) matches Ok(o) ==> o.wire.len() > 0 && (
        !m[fd].pidincl ==> o.wire[0] == AX25_PID_NO_L3),
{
}

/// Setting any option of a socket changes that socket only, and never what it is
/// connected to.
pub proof fn law_options_leave_the_link_alone(
    m: Fds,
    fd: i32,
    level: i32,
    optname: i32,
    value: Option<u32>,
    other: i32,
)
    ensures
        ({
            let after = changed(m, fd, option_set(m[fd], level, optname, value));
            &&& after.dom() =~= m.dom()
            &&& other != fd && m.contains_key(other) ==> after[other] == m[other]
            &&& m.contains_key(fd) ==> after[fd].handle == m[fd].handle && after[fd].local
                == m[fd].local && after[fd].remote == m[fd].remote && after[fd].dgram
                == m[fd].dgram
        }),
{
}

} // verus!
