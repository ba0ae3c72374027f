//! Calls on sockets: binding, listening, connecting, accepting, sending, closing.

use vstd::pervasive::unreached;
use vstd::prelude::*;

use super::calls::{Action, ActionModel, Event};
use super::state::{
    changed, connect_errno, fresh, no_call_errno, no_client_errno, source_call, AcceptStep,
    BindStep, Call, ConnectStep, FdModel, Fds, ListenStep, Opened, State,
};
use crate::errno::{
    EAGAIN, EBADF, ECONNABORTED, ECONNREFUSED, EINPROGRESS, EINVAL, EIO, ENFILE, ENOTCONN,
};
use crate::rhp::client::{chunks, joined, law_chunks_are_the_data};
use crate::rhp::messages::{string_view, unsigned_of, FrameModel};
use crate::rhpv2::client::{
    connect_outcome, reports_link, AcceptInfo, AcceptModel, ConnPhase, FullModel,
};

verus! {

/// How long a blocking connect waits for the handshake, in nanoseconds: five
/// minutes, since it is retried and a link can take long to come up.
pub const CONNECT_LIMIT: u128 = 300_000_000_000;

/// `bind` on a socket.
pub struct BindCall {
    pub fd: i32,
    pub call: Option<String>,
    /// Waits for the handle of a datagram socket.
    pub opening: bool,
}

/// What `bind` does on an event.
pub open spec fn bind_next(c: BindCall, fds: Fds, ev: Event) -> (bool, Fds, ActionModel) {
    if c.opening {
        match ev->Ensured_0 {
            Ok(_) => (false, fds, ActionModel::Return(0)),
            Err(e) => (false, fds, ActionModel::Fail(e)),
        }
    } else if !fds.contains_key(c.fd) {
        (false, fds, ActionModel::PassThrough)
    } else {
        let after = match c.call {
            Some(t) => changed(fds, c.fd, FdModel { local: Some(t@), ..fds[c.fd] }),
            None => fds,
        };
        if fds[c.fd].dgram {
            (true, after, ActionModel::EnsureDgram)
        } else {
            (false, after, ActionModel::Return(0))
        }
    }
}

impl BindCall {
    /// The next step. Notes the callsign; a connectionless socket then gets its
    /// handle at once, so that it starts to receive.
    pub fn next(&mut self, st: &mut State, ev: Event) -> (r: Action)
        requires
            old(self).opening ==> ev is Ensured,
        ensures
            (final(self).opening, final(st)@, r@) == bind_next(*old(self), old(st)@, ev),
            final(self).fd == old(self).fd,
    {
        if self.opening {
            self.opening = false;
            return match ev {
                Event::Ensured(Ok(_)) => Action::Return(0),
                Event::Ensured(Err(e)) => Action::Fail(e),
                _ => unreached(),
            };
        }
        match st.bind(self.fd, self.call.take()) {
            BindStep::PassThrough => {
                assert(st@ =~= old(st)@);
                Action::PassThrough
            },
            BindStep::Done => Action::Return(0),
            BindStep::EnsureDgram => {
                self.opening = true;
                Action::EnsureDgram
            },
        }
    }
}

/// Where `listen` stands.
#[derive(Debug, Clone, Copy, PartialEq, Eq, Structural)]
pub enum ListenPhase {
    Start,
    Client,
    Opening,
    Binding(u64),
    Listening(u64),
    Over,
}

/// `listen` on a socket.
pub struct ListenCall {
    pub fd: i32,
    pub local: String,
    pub phase: ListenPhase,
}

/// Whether an event is one that a phase waits for.
pub open spec fn listen_fits(p: ListenPhase, ev: Event) -> bool {
    match p {
        ListenPhase::Start => true,
        ListenPhase::Client => ev is Client,
        ListenPhase::Opening => ev is Handle,
        ListenPhase::Binding(_) | ListenPhase::Listening(_) => ev is Finished,
        ListenPhase::Over => false,
    }
}

/// What `listen` does on an event.
pub open spec fn listen_next(c: ListenCall, fds: Fds, ev: Event) -> (
    ListenPhase,
    Fds,
    ActionModel,
) {
    match c.phase {
        ListenPhase::Start => if !fds.contains_key(c.fd) {
            (ListenPhase::Over, fds, ActionModel::PassThrough)
        } else if fds[c.fd].local is None {
            (ListenPhase::Over, fds, ActionModel::Fail(EINVAL))
        } else {
            (ListenPhase::Client, fds, ActionModel::GetClient)
        },
        ListenPhase::Client => if ev->Client_0 {
            (ListenPhase::Opening, fds, ActionModel::OpenSocket { dgram: false })
        } else {
            (ListenPhase::Over, fds, ActionModel::Fail(ECONNREFUSED))
        },
        ListenPhase::Opening => match ev->Handle_0 {
            Ok(h) => (
                ListenPhase::Binding(h),
                fds,
                ActionModel::Bind { handle: h, local: c.local@ },
            ),
            Err(e) => (ListenPhase::Over, fds, ActionModel::Fail(e@.errno())),
        },
        ListenPhase::Binding(h) => match ev->Finished_0 {
            Ok(_) => (ListenPhase::Listening(h), fds, ActionModel::Listen { handle: h }),
            Err(e) => (ListenPhase::Over, fds, ActionModel::Fail(e@.errno())),
        },
        ListenPhase::Listening(h) => match ev->Finished_0 {
            Ok(_) => (
                ListenPhase::Over,
                changed(
                    fds,
                    c.fd,
                    FdModel { handle: Some(h), listening: true, ..fds[c.fd] },
                ),
                ActionModel::Return(0),
            ),
            Err(e) => (ListenPhase::Over, fds, ActionModel::Fail(e@.errno())),
        },
        ListenPhase::Over => (ListenPhase::Over, fds, ActionModel::PassThrough),
    }
}

impl ListenCall {
    /// The next step: needs a callsign and the engine; then allocates a handle,
    /// binds the callsign and listens.
    pub fn next(&mut self, st: &mut State, ev: Event) -> (r: Action)
        requires
            listen_fits(old(self).phase, ev),
        ensures
            (final(self).phase, final(st)@, r@) == listen_next(*old(self), old(st)@, ev),
            final(self).fd == old(self).fd,
            final(self).phase == ListenPhase::Client ==> Some(final(self).local@)
                == old(st)@[old(self).fd].local,
            final(self).phase != ListenPhase::Client ==> final(self).local == old(self).local,
    {
        match self.phase {
            ListenPhase::Start => match st.listen(self.fd) {
                ListenStep::PassThrough => {
                    self.phase = ListenPhase::Over;
                    Action::PassThrough
                },
                ListenStep::Fail(e) => {
                    self.phase = ListenPhase::Over;
                    Action::Fail(e)
                },
                ListenStep::Open(local) => {
                    self.local = local;
                    self.phase = ListenPhase::Client;
                    Action::GetClient
                },
            },
            ListenPhase::Client => {
                let reached = match ev {
                    Event::Client(b) => b,
                    _ => false,
                };
                if reached {
                    self.phase = ListenPhase::Opening;
                    Action::OpenSocket { dgram: false }
                } else {
                    self.phase = ListenPhase::Over;
                    Action::Fail(no_client_errno(Call::Listen))
                }
            },
            ListenPhase::Opening => match ev {
                Event::Handle(Ok(h)) => {
                    self.phase = ListenPhase::Binding(h);
                    Action::Bind { handle: h, local: self.local.clone() }
                },
                Event::Handle(Err(e)) => {
                    self.phase = ListenPhase::Over;
                    Action::Fail(e.to_errno())
                },
                _ => unreached(),
            },
            ListenPhase::Binding(h) => match ev {
                Event::Finished(Ok(_)) => {
                    self.phase = ListenPhase::Listening(h);
                    Action::Listen { handle: h }
                },
                Event::Finished(Err(e)) => {
                    self.phase = ListenPhase::Over;
                    Action::Fail(e.to_errno())
                },
                _ => unreached(),
            },
            ListenPhase::Listening(h) => {
                self.phase = ListenPhase::Over;
                let result = match ev {
                    Event::Finished(Ok(_)) => Ok(h),
                    Event::Finished(Err(e)) => Err(e),
                    _ => unreached(),
                };
                match st.listen_done(self.fd, result) {
                    Ok(()) => Action::Return(0),
                    Err(e) => Action::Fail(e),
                }
            },
            ListenPhase::Over => unreached(),
        }
    }
}

/// Where `connect` stands.
#[derive(Debug, Clone, Copy, PartialEq, Eq, Structural)]
pub enum ConnectPhase {
    Start,
    /// The handle of a datagram socket is being opened.
    Ensuring,
    Client,
    Opening,
    Registering(Opened),
    Asking(Opened),
    Arming(Opened),
    Peeking(Opened),
    Resolving,
    Waiting(Opened),
    Forwarding,
    Over,
}

/// `connect` on a socket.
pub struct ConnectCall {
    pub fd: i32,
    /// The callsign to connect to, where one could be read.
    pub remote: Option<String>,
    /// The configured source callsign.
    pub configured: Option<String>,
    pub local: String,
    pub phase: ConnectPhase,
}

/// Whether an event is one that a phase waits for.
pub open spec fn connect_fits(p: ConnectPhase, ev: Event) -> bool {
    match p {
        ConnectPhase::Ensuring => ev is Ensured,
        ConnectPhase::Client => ev is Client,
        ConnectPhase::Opening => ev is Opened,
        ConnectPhase::Asking(_) | ConnectPhase::Peeking(_) => ev is Flag,
        ConnectPhase::Waiting(_) => ev is Linked,
        ConnectPhase::Over => false,
        _ => true,
    }
}

/// The socket once a link has been opened for it.
pub open spec fn opened_fd(s: FdModel, handle: u64, remote: Seq<char>) -> FdModel {
    FdModel { handle: Some(handle), remote: Some(remote), ..s }
}

/// What `connect` does on an event.
pub open spec fn connect_next(c: ConnectCall, fds: Fds, ev: Event) -> (
    ConnectPhase,
    Fds,
    ActionModel,
) {
    match c.phase {
        ConnectPhase::Start => if !fds.contains_key(c.fd) {
            (ConnectPhase::Over, fds, ActionModel::PassThrough)
        } else if c.remote is None {
            (ConnectPhase::Over, fds, ActionModel::Fail(EINVAL))
        } else if fds[c.fd].dgram {
            (ConnectPhase::Ensuring, fds, ActionModel::EnsureDgram)
        } else {
            (ConnectPhase::Client, fds, ActionModel::GetClient)
        },
        ConnectPhase::Ensuring => match ev->Ensured_0 {
            Err(e) => (ConnectPhase::Over, fds, ActionModel::Fail(e)),
            Ok(_) => (
                ConnectPhase::Over,
                changed(
                    fds,
                    c.fd,
                    FdModel { remote: Some(c.remote->Some_0@), ..fds[c.fd] },
                ),
                ActionModel::Return(0),
            ),
        },
        ConnectPhase::Client => if ev->Client_0 {
            (
                ConnectPhase::Opening,
                fds,
                ActionModel::OpenLink { local: c.local@, remote: c.remote->Some_0@ },
            )
        } else {
            (ConnectPhase::Over, fds, ActionModel::Fail(ECONNREFUSED))
        },
        ConnectPhase::Opening => match ev->Opened_0 {
            Err(e) => (ConnectPhase::Over, fds, ActionModel::Fail(e@.errno())),
            Ok(o) => if fds.contains_key(c.fd) {
                (
                    ConnectPhase::Registering(
                        Opened {
                            handle: o.handle,
                            app_fd: fds[c.fd].app_fd,
                            inner_fd: fds[c.fd].inner_fd,
                        },
                    ),
                    fds.insert(c.fd, opened_fd(fds[c.fd], o.handle, c.remote->Some_0@)),
                    ActionModel::RegisterRecv {
                        handle: o.handle,
                        inner_fd: fds[c.fd].inner_fd,
                    },
                )
            } else {
                (ConnectPhase::Over, fds, ActionModel::Fail(EBADF))
            },
        },
        ConnectPhase::Registering(o) => (
            ConnectPhase::Asking(o),
            fds,
            ActionModel::AskNonblocking,
        ),
        ConnectPhase::Asking(o) => if ev->Flag_0 {
            (
                ConnectPhase::Arming(o),
                fds,
                ActionModel::HoldWritable {
                    handle: o.handle,
                    app_fd: o.app_fd,
                    inner_fd: o.inner_fd,
                },
            )
        } else {
            (
                ConnectPhase::Waiting(o),
                fds,
                ActionModel::WaitLink { handle: o.handle, limit: CONNECT_LIMIT },
            )
        },
        ConnectPhase::Arming(o) => (
            ConnectPhase::Peeking(o),
            fds,
            ActionModel::PeekLink { handle: o.handle },
        ),
        ConnectPhase::Peeking(o) => if ev->Flag_0 {
            (ConnectPhase::Resolving, fds, ActionModel::LetWritable { handle: o.handle })
        } else {
            (ConnectPhase::Over, fds, ActionModel::Fail(EINPROGRESS))
        },
        ConnectPhase::Resolving => (ConnectPhase::Over, fds, ActionModel::Fail(EINPROGRESS)),
        ConnectPhase::Waiting(o) => match ev->Linked_0 {
            Ok(_) => (
                ConnectPhase::Forwarding,
                fds,
                ActionModel::RegisterOutbound { handle: o.handle, inner_fd: o.inner_fd },
            ),
            Err(e) => (ConnectPhase::Over, fds, ActionModel::Fail(e)),
        },
        ConnectPhase::Forwarding => (ConnectPhase::Over, fds, ActionModel::Return(0)),
        ConnectPhase::Over => (ConnectPhase::Over, fds, ActionModel::PassThrough),
    }
}

impl ConnectCall {
    /// A connect of a socket, to a callsign if one could be read.
    pub fn new(fd: i32, remote: Option<String>, configured: Option<String>) -> (r: ConnectCall)
        ensures
            r.fd == fd,
            r.remote == remote,
            r.configured == configured,
            r.phase == ConnectPhase::Start,
    {
        ConnectCall { fd, remote, configured, local: String::new(), phase: ConnectPhase::Start }
    }

    /// The remote callsign, once it is known to be there.
    fn target(&self) -> (r: String)
        requires
            self.remote is Some,
        ensures
            r@ == self.remote->Some_0@,
    {
        match &self.remote {
            Some(c) => c.clone(),
            None => unreached(),
        }
    }

    /// The next step. The reply to `open` only starts the handshake: a blocking
    /// socket waits until the link is decided, a non-blocking one is told that the
    /// connect is in progress and becomes writable once it is decided. A link that
    /// was decided before the socket was held is seen right after.
    pub fn next(&mut self, st: &mut State, ev: Event) -> (r: Action)
        requires
            connect_fits(old(self).phase, ev),
            old(self).phase != ConnectPhase::Start ==> old(self).remote is Some,
        ensures
            (final(self).phase, final(st)@, r@) == connect_next(*old(self), old(st)@, ev),
            final(self).fd == old(self).fd,
            string_view(final(self).remote) == string_view(old(self).remote),
            final(self).phase != ConnectPhase::Over ==> final(self).remote is Some,
            final(self).phase == ConnectPhase::Client ==> final(self).local@ == source_call(
                old(st)@[old(self).fd].local,
                old(self).configured,
            ),
            final(self).phase != ConnectPhase::Client ==> final(self).local == old(self).local,
    {
        match self.phase {
            ConnectPhase::Start => {
                let remote = match &self.remote {
                    Some(c) => Some(c.clone()),
                    None => None,
                };
                match st.connect(self.fd, remote, self.configured.take()) {
                    ConnectStep::PassThrough => {
                        self.phase = ConnectPhase::Over;
                        Action::PassThrough
                    },
                    ConnectStep::Fail(e) => {
                        self.phase = ConnectPhase::Over;
                        Action::Fail(e)
                    },
                    ConnectStep::EnsureDgram(_) => {
                        self.phase = ConnectPhase::Ensuring;
                        Action::EnsureDgram
                    },
                    ConnectStep::Open { local, remote: _ } => {
                        self.local = local;
                        self.phase = ConnectPhase::Client;
                        Action::GetClient
                    },
                }
            },
            ConnectPhase::Ensuring => {
                self.phase = ConnectPhase::Over;
                match ev {
                    Event::Ensured(Ok(_)) => {
                        st.connect_dgram(self.fd, self.target());
                        Action::Return(0)
                    },
                    Event::Ensured(Err(e)) => Action::Fail(e),
                    _ => unreached(),
                }
            },
            ConnectPhase::Client => {
                let reached = match ev {
                    Event::Client(b) => b,
                    _ => false,
                };
                if reached {
                    self.phase = ConnectPhase::Opening;
                    Action::OpenLink { local: self.local.clone(), remote: self.target() }
                } else {
                    self.phase = ConnectPhase::Over;
                    Action::Fail(no_client_errno(Call::Connect))
                }
            },
            ConnectPhase::Opening => {
                let opened = match ev {
                    Event::Opened(res) => res,
                    _ => unreached(),
                };
                match st.connect_opened(self.fd, self.target(), opened) {
                    Ok(o) => {
                        self.phase = ConnectPhase::Registering(o);
                        Action::RegisterRecv { handle: o.handle, inner_fd: o.inner_fd }
                    },
                    Err(e) => {
                        self.phase = ConnectPhase::Over;
                        Action::Fail(e)
                    },
                }
            },
            ConnectPhase::Registering(o) => {
                self.phase = ConnectPhase::Asking(o);
                Action::AskNonblocking
            },
            ConnectPhase::Asking(o) => {
                let nonblocking = match ev {
                    Event::Flag(b) => b,
                    _ => false,
                };
                if nonblocking {
                    self.phase = ConnectPhase::Arming(o);
                    Action::HoldWritable { handle: o.handle, app_fd: o.app_fd, inner_fd: o.inner_fd }
                } else {
                    self.phase = ConnectPhase::Waiting(o);
                    Action::WaitLink { handle: o.handle, limit: CONNECT_LIMIT }
                }
            },
            ConnectPhase::Arming(o) => {
                self.phase = ConnectPhase::Peeking(o);
                Action::PeekLink { handle: o.handle }
            },
            ConnectPhase::Peeking(o) => {
                let decided = match ev {
                    Event::Flag(b) => b,
                    _ => false,
                };
                if decided {
                    self.phase = ConnectPhase::Resolving;
                    Action::LetWritable { handle: o.handle }
                } else {
                    self.phase = ConnectPhase::Over;
                    Action::Fail(connect_errno(true, Ok(())))
                }
            },
            ConnectPhase::Resolving => {
                self.phase = ConnectPhase::Over;
                Action::Fail(connect_errno(true, Ok(())))
            },
            ConnectPhase::Waiting(o) => match ev {
                Event::Linked(Ok(_)) => {
                    self.phase = ConnectPhase::Forwarding;
                    Action::RegisterOutbound { handle: o.handle, inner_fd: o.inner_fd }
                },
                Event::Linked(Err(e)) => {
                    self.phase = ConnectPhase::Over;
                    Action::Fail(connect_errno(false, Err(e)))
                },
                _ => unreached(),
            },
            ConnectPhase::Forwarding => {
                self.phase = ConnectPhase::Over;
                Action::Return(0)
            },
            ConnectPhase::Over => unreached(),
        }
    }
}

/// A connected socket reports success only once its link is up: `connect` returns
/// 0 on a stream socket only behind a wait that ended well, and asks for nothing
/// that could fail after that.
pub proof fn law_connect_succeeds_only_when_linked(c: ConnectCall, fds: Fds, ev: Event)
    requires
        connect_fits(c.phase, ev),
    ensures
        ({
            let (p, after, action) = connect_next(c, fds, ev);
            &&& action is Return ==> c.phase == ConnectPhase::Forwarding || (c.phase
                == ConnectPhase::Ensuring && ev->Ensured_0 is Ok)
            &&& p == ConnectPhase::Forwarding ==> c.phase is Waiting && ev->Linked_0 is Ok
            &&& c.phase == ConnectPhase::Forwarding ==> action == ActionModel::Return(0)
        }),
{
}

/// A run of `connect` from its start: at each step the call, the sockets as they
/// are then, and the event.
pub open spec fn is_connect_run(steps: Seq<(ConnectCall, Fds, Event)>) -> bool {
    &&& steps.len() > 0
    &&& steps[0].0.phase == ConnectPhase::Start
    &&& forall|i: int|
        0 <= i < steps.len() ==> connect_fits((#[trigger] steps[i]).0.phase, steps[i].2)
    &&& forall|i: int|
        0 < i < steps.len() ==> (#[trigger] steps[i]).0.phase == connect_next(
            steps[i - 1].0,
            steps[i - 1].1,
            steps[i - 1].2,
        ).0
}

/// Whatever happens in between, and whatever becomes of the sockets: a run of
/// `connect` that returns success has been told that the link is up, or was on a
/// connectionless socket and has its handle.
pub proof fn law_connect_returns_only_when_linked(steps: Seq<(ConnectCall, Fds, Event)>)
    requires
        is_connect_run(steps),
        connect_next(steps.last().0, steps.last().1, steps.last().2).2 is Return,
    ensures
        exists|i: int|
            0 <= i < steps.len() && ((#[trigger] steps[i]).2 matches Event::Linked(Ok(_))
                || steps[i].2 matches Event::Ensured(Ok(_))),
{
    let n = steps.len() - 1;
    let (c, fds, ev) = steps[n];
    law_connect_succeeds_only_when_linked(c, fds, ev);
    if c.phase == ConnectPhase::Forwarding {
        assert(n > 0);
        let (b, before, up) = steps[n - 1];
        assert(connect_fits(b.phase, up));
        law_connect_succeeds_only_when_linked(b, before, up);
        assert(steps[n - 1].2 matches Event::Linked(Ok(_)));
    } else {
        assert(steps[n].2 matches Event::Ensured(Ok(_)));
    }
}

/// A non-blocking connect never waits, and is always told that it is in progress.
pub proof fn law_nonblocking_connect_does_not_wait(c: ConnectCall, fds: Fds, ev: Event)
    requires
        connect_fits(c.phase, ev),
        c.phase is Arming || c.phase is Peeking || c.phase == ConnectPhase::Resolving,
    ensures
        ({
            let (p, after, action) = connect_next(c, fds, ev);
            &&& !(action is WaitLink)
            &&& p == ConnectPhase::Over ==> action == ActionModel::Fail(EINPROGRESS)
            &&& p != ConnectPhase::Over ==> p is Peeking || p == ConnectPhase::Resolving
        }),
{
}

/// What becomes of a socket that is kept from being writable.
#[derive(Debug, Clone, Copy, PartialEq, Eq, Structural)]
pub enum Hold {
    /// Nothing changes.
    Keep,
    /// It becomes writable.
    Open,
    /// It becomes writable, and what is written to it is forwarded.
    OpenAndForward,
}

/// What becomes of a held socket: it stays held while its link is undecided; once
/// that is up it is opened and forwarded, once it has failed it is opened, so that
/// the error can be read.
pub open spec fn hold_of(held: bool, link: Option<Result<(), i32>>) -> Hold {
    if !held {
        Hold::Keep
    } else {
        match link {
            None => Hold::Keep,
            Some(Ok(_)) => Hold::OpenAndForward,
            Some(Err(_)) => Hold::Open,
        }
    }
}

/// What becomes of a socket, given whether it is held and what was decided on its
/// link.
pub fn hold_step(held: bool, link: Option<Result<(), i32>>) -> (r: Hold)
    ensures
        r == hold_of(held, link),
{
    if !held {
        return Hold::Keep;
    }
    match link {
        None => Hold::Keep,
        Some(Ok(())) => Hold::OpenAndForward,
        Some(Err(_)) => Hold::Open,
    }
}

/// A held socket becomes writable as soon as its link is decided, and not before:
/// a report that the link is up opens and forwards it, a close of the pending
/// connect or the end of the transport opens it, and no other push does anything to
/// it. A link that was decided before the socket was held opens it all the same.
pub proof fn law_a_held_socket_becomes_writable(c: FullModel, f: FrameModel, handle: u64)
    requires
        c.conns.contains_key(handle),
    ensures
        reports_link(f, handle) ==> hold_of(
            true,
            connect_outcome(c.after_push(f).conns, handle),
        ) == Hold::OpenAndForward,
        c.conns[handle] == ConnPhase::Pending ==> {
            let after = hold_of(true, connect_outcome(c.after_push(f).conns, handle));
            let closes = f.typ() == "close"@ && unsigned_of(f.handle) == Some(handle);
            &&& hold_of(true, connect_outcome(c.conns, handle)) == Hold::Keep
            &&& closes ==> after == Hold::Open
            &&& !closes && !reports_link(f, handle) ==> after == Hold::Keep
        },
        hold_of(true, connect_outcome(c.ended().conns, handle)) != Hold::Keep,
        hold_of(true, connect_outcome(c.conns, handle)) == Hold::Keep <==> c.conns[handle]
            == ConnPhase::Pending,
{
    reveal_strlit("status");
    reveal_strlit("recv");
    reveal_strlit("accept");
    reveal_strlit("close");
    assert("status"@[0] == 's' && "accept"@[0] == 'a');
    assert("close"@.len() == 5 && "recv"@.len() == 4 && "status"@.len() == 6);
}

/// Where `accept` stands.
#[derive(Debug, Clone, Copy, PartialEq, Eq, Structural)]
pub enum AcceptPhase {
    Start,
    Client(u64),
    Asking(u64),
    /// A call is being taken; whether the socket is non-blocking.
    Calling(bool),
    Making,
    /// The new socket, its handle and our end of its pair.
    Registering(i32, u64, i32),
    Forwarding(i32),
    Reporting(i32),
    Over,
}

/// `accept` on a listener.
pub struct AcceptCall {
    pub fd: i32,
    /// The callsign of the listener.
    pub local: Option<String>,
    /// The call that was taken.
    pub info: Option<AcceptInfo>,
    /// The caller.
    pub peer: Option<String>,
    pub phase: AcceptPhase,
}

/// Whether an event is one that a phase waits for.
pub open spec fn accept_fits(c: AcceptCall, ev: Event) -> bool {
    match c.phase {
        AcceptPhase::Client(_) => ev is Client,
        AcceptPhase::Asking(_) => ev is Flag,
        AcceptPhase::Calling(_) => ev is Called,
        AcceptPhase::Making => ev is Made && c.info is Some,
        AcceptPhase::Over => false,
        _ => true,
    }
}

/// The socket of an accepted call: its handle, the caller as peer, and the
/// callsign that was called, else that of the listener.
pub open spec fn accepted_fd(
    app_fd: i32,
    inner_fd: i32,
    info: AcceptModel,
    listener: Option<Seq<char>>,
) -> FdModel {
    FdModel {
        handle: Some(info.child_handle),
        remote: info.remote,
        local: if info.local is Some {
            info.local
        } else {
            listener
        },
        ..fresh(app_fd, inner_fd, false)
    }
}

/// What `accept` does on an event.
pub open spec fn accept_next(c: AcceptCall, fds: Fds, ev: Event) -> (
    AcceptPhase,
    Fds,
    ActionModel,
) {
    match c.phase {
        AcceptPhase::Start => if !fds.contains_key(c.fd) {
            (AcceptPhase::Over, fds, ActionModel::PassThrough)
        } else {
            match fds[c.fd].handle {
                Some(listener) => (AcceptPhase::Client(listener), fds, ActionModel::GetClient),
                None => (AcceptPhase::Over, fds, ActionModel::Fail(EINVAL)),
            }
        },
        AcceptPhase::Client(listener) => if ev->Client_0 {
            (AcceptPhase::Asking(listener), fds, ActionModel::AskNonblocking)
        } else {
            (AcceptPhase::Over, fds, ActionModel::Fail(ECONNABORTED))
        },
        AcceptPhase::Asking(listener) => if ev->Flag_0 {
            (AcceptPhase::Calling(true), fds, ActionModel::TakeCall { listener })
        } else {
            (AcceptPhase::Calling(false), fds, ActionModel::WaitCall { listener })
        },
        AcceptPhase::Calling(nonblocking) => match ev->Called_0 {
            Some(_) => (AcceptPhase::Making, fds, ActionModel::MakeSocket),
            None => (
                AcceptPhase::Over,
                fds,
                ActionModel::Fail(
                    if nonblocking {
                        EAGAIN
                    } else {
                        ECONNABORTED
                    },
                ),
            ),
        },
        AcceptPhase::Making => match ev->Made_0 {
            None => (AcceptPhase::Over, fds, ActionModel::Fail(ENFILE)),
            Some((app_fd, inner_fd)) => {
                let info = c.info->Some_0@;
                (
                    AcceptPhase::Registering(app_fd, info.child_handle, inner_fd),
                    fds.insert(
                        app_fd,
                        accepted_fd(app_fd, inner_fd, info, string_view(c.local)),
                    ),
                    ActionModel::RegisterRecv { handle: info.child_handle, inner_fd },
                )
            },
        },
        AcceptPhase::Registering(app_fd, handle, inner_fd) => (
            AcceptPhase::Forwarding(app_fd),
            fds,
            ActionModel::RegisterOutbound { handle, inner_fd },
        ),
        AcceptPhase::Forwarding(app_fd) => match c.peer {
            Some(p) => (AcceptPhase::Reporting(app_fd), fds, ActionModel::ReportPeer(p@)),
            None => (AcceptPhase::Over, fds, ActionModel::Return(app_fd as int)),
        },
        AcceptPhase::Reporting(app_fd) => (
            AcceptPhase::Over,
            fds,
            ActionModel::Return(app_fd as int),
        ),
        AcceptPhase::Over => (AcceptPhase::Over, fds, ActionModel::PassThrough),
    }
}

impl AcceptCall {
    /// An accept on a listener.
    pub fn new(fd: i32) -> (r: AcceptCall)
        ensures
            r.fd == fd,
            r.phase == AcceptPhase::Start,
    {
        AcceptCall { fd, local: None, info: None, peer: None, phase: AcceptPhase::Start }
    }

    /// The next step: needs a listener and the engine; takes a call, waiting for
    /// one unless the socket is non-blocking; gives it a socket of its own, and
    /// reports the caller.
    pub fn next(&mut self, st: &mut State, ev: Event) -> (r: Action)
        requires
            accept_fits(*old(self), ev),
        ensures
            (final(self).phase, final(st)@, r@) == accept_next(*old(self), old(st)@, ev),
            final(self).fd == old(self).fd,
            final(self).phase is Client ==> string_view(final(self).local)
                == old(st)@[old(self).fd].local,
            !(final(self).phase is Client) && !(final(self).phase is Registering) ==> string_view(
                final(self).local,
            ) == string_view(old(self).local),
            final(self).phase == AcceptPhase::Making ==> ev->Called_0 is Some && final(self).info
                == ev->Called_0,
            final(self).phase is Registering ==> string_view(final(self).peer)
                == old(self).info->Some_0@.remote,
            final(self).phase is Forwarding ==> final(self).peer == old(self).peer,
    {
        match self.phase {
            AcceptPhase::Start => match st.accept(self.fd) {
                AcceptStep::PassThrough => {
                    self.phase = AcceptPhase::Over;
                    Action::PassThrough
                },
                AcceptStep::Fail(e) => {
                    self.phase = AcceptPhase::Over;
                    Action::Fail(e)
                },
                AcceptStep::Wait { listener, local } => {
                    self.local = local;
                    self.phase = AcceptPhase::Client(listener);
                    Action::GetClient
                },
            },
            AcceptPhase::Client(listener) => {
                let reached = match ev {
                    Event::Client(b) => b,
                    _ => false,
                };
                if reached {
                    self.phase = AcceptPhase::Asking(listener);
                    Action::AskNonblocking
                } else {
                    self.phase = AcceptPhase::Over;
                    Action::Fail(no_client_errno(Call::Accept))
                }
            },
            AcceptPhase::Asking(listener) => {
                let nonblocking = match ev {
                    Event::Flag(b) => b,
                    _ => false,
                };
                self.phase = AcceptPhase::Calling(nonblocking);
                if nonblocking {
                    Action::TakeCall { listener }
                } else {
                    Action::WaitCall { listener }
                }
            },
            AcceptPhase::Calling(nonblocking) => match ev {
                Event::Called(Some(info)) => {
                    self.info = Some(info);
                    self.phase = AcceptPhase::Making;
                    Action::MakeSocket
                },
                Event::Called(None) => {
                    self.phase = AcceptPhase::Over;
                    Action::Fail(no_call_errno(nonblocking))
                },
                _ => unreached(),
            },
            AcceptPhase::Making => match ev {
                Event::Made(Some((app_fd, inner_fd))) => {
                    let info = match self.info.take() {
                        Some(info) => info,
                        None => unreached(),
                    };
                    let handle: u64 = info.child_handle;
                    st.create_ax25_fd(app_fd, inner_fd, false);
                    self.peer = st.accept_child(app_fd, info, self.local.take());
                    self.phase = AcceptPhase::Registering(app_fd, handle, inner_fd);
                    assert(st@ =~= old(st)@.insert(
                        app_fd,
                        accepted_fd(app_fd, inner_fd, info@, string_view(old(self).local)),
                    ));
                    Action::RegisterRecv { handle, inner_fd }
                },
                Event::Made(None) => {
                    self.phase = AcceptPhase::Over;
                    Action::Fail(ENFILE)
                },
                _ => unreached(),
            },
            AcceptPhase::Registering(app_fd, handle, inner_fd) => {
                self.phase = AcceptPhase::Forwarding(app_fd);
                Action::RegisterOutbound { handle, inner_fd }
            },
            AcceptPhase::Forwarding(app_fd) => match self.peer.take() {
                Some(p) => {
                    self.phase = AcceptPhase::Reporting(app_fd);
                    Action::ReportPeer(p)
                },
                None => {
                    self.phase = AcceptPhase::Over;
                    Action::Return(app_fd as i64)
                },
            },
            AcceptPhase::Reporting(app_fd) => {
                self.phase = AcceptPhase::Over;
                Action::Return(app_fd as i64)
            },
            AcceptPhase::Over => unreached(),
        }
    }
}

/// An accepted socket is ready for use in both directions when `accept` returns
/// it: it was routed and is forwarded before.
pub proof fn law_accept_returns_a_ready_socket(c: AcceptCall, fds: Fds, ev: Event)
    requires
        accept_fits(c, ev),
    ensures
        ({
            let (p, after, action) = accept_next(c, fds, ev);
            &&& action is Return ==> c.phase is Forwarding || c.phase is Reporting
            &&& p is Forwarding ==> action is RegisterOutbound && c.phase is Registering
            &&& p is Registering ==> action is RegisterRecv
        }),
{
}

/// Where sending on a connected socket stands.
#[derive(Debug, Clone, Copy, PartialEq, Eq, Structural)]
pub enum SendPhase {
    Start,
    Client(u64),
    Taking(u64),
    Sending,
    Over,
}

/// Sending on a connected socket.
pub struct SendCall {
    pub fd: i32,
    pub data: Vec<u8>,
    pub phase: SendPhase,
}

/// Puts data behind what was written before it.
pub fn in_order(written: Vec<u8>, data: &[u8]) -> (r: Vec<u8>)
    ensures
        r@ == written@ + data@,
{
    let mut r = written;
    r.extend_from_slice(data);
    assert(r@ =~= written@ + data@);
    r
}

/// Whether an event is one that a phase waits for.
pub open spec fn send_fits(p: SendPhase, ev: Event) -> bool {
    match p {
        SendPhase::Start => true,
        SendPhase::Client(_) => ev is Client,
        SendPhase::Taking(_) => ev is Written,
        SendPhase::Sending => ev is Sent,
        SendPhase::Over => false,
    }
}

/// What sending does on an event.
pub open spec fn send_next(c: SendCall, fds: Fds, ev: Event) -> (SendPhase, ActionModel) {
    match c.phase {
        SendPhase::Start => if fds.contains_key(c.fd) && fds[c.fd].handle is Some {
            (SendPhase::Client(fds[c.fd].handle->Some_0), ActionModel::GetClient)
        } else {
            (SendPhase::Over, ActionModel::Fail(ENOTCONN))
        },
        SendPhase::Client(handle) => if ev->Client_0 {
            (SendPhase::Taking(handle), ActionModel::TakeWritten { handle })
        } else {
            (SendPhase::Over, ActionModel::Fail(EIO))
        },
        SendPhase::Taking(handle) => (
            SendPhase::Sending,
            ActionModel::Send { handle, bytes: ev->Written_0@ + c.data@ },
        ),
        SendPhase::Sending => match ev->Sent_0 {
            Ok(_) => (SendPhase::Over, ActionModel::Return(c.data@.len() as int)),
            Err(e) => (SendPhase::Over, ActionModel::Fail(e)),
        },
        SendPhase::Over => (SendPhase::Over, ActionModel::PassThrough),
    }
}

impl SendCall {
    /// Data is to be sent on a socket.
    pub fn new(fd: i32, data: Vec<u8>) -> (r: SendCall)
        ensures
            r.fd == fd,
            r.data == data,
            r.phase == SendPhase::Start,
    {
        SendCall { fd, data, phase: SendPhase::Start }
    }

    /// The next step: needs a handle and the engine; everything is sent, or it
    /// fails. What the application wrote before, in a way that is not served, goes
    /// out first, so that the two stay in order.
    pub fn next(&mut self, st: &State, ev: Event) -> (r: Action)
        requires
            send_fits(old(self).phase, ev),
            old(self).data@.len() <= i64::MAX,
        ensures
            (final(self).phase, r@) == send_next(*old(self), st@, ev),
            final(self).fd == old(self).fd,
            final(self).data == old(self).data,
    {
        match self.phase {
            SendPhase::Start => match st.ax25_send(self.fd) {
                Ok(h) => {
                    self.phase = SendPhase::Client(h);
                    Action::GetClient
                },
                Err(e) => {
                    self.phase = SendPhase::Over;
                    Action::Fail(e)
                },
            },
            SendPhase::Client(handle) => {
                let reached = match ev {
                    Event::Client(b) => b,
                    _ => false,
                };
                if reached {
                    self.phase = SendPhase::Taking(handle);
                    Action::TakeWritten { handle }
                } else {
                    self.phase = SendPhase::Over;
                    Action::Fail(no_client_errno(Call::Send))
                }
            },
            SendPhase::Taking(handle) => match ev {
                Event::Written(written) => {
                    self.phase = SendPhase::Sending;
                    Action::Send { handle, bytes: in_order(written, self.data.as_slice()) }
                },
                _ => unreached(),
            },
            SendPhase::Sending => {
                self.phase = SendPhase::Over;
                match ev {
                    Event::Sent(Ok(_)) => Action::Return(self.data.len() as i64),
                    Event::Sent(Err(e)) => Action::Fail(e),
                    _ => unreached(),
                }
            },
            SendPhase::Over => unreached(),
        }
    }
}

/// What an application wrote in a way that is not served goes out before the data
/// of a later send, with nothing lost, added or reordered: the chunks in which the
/// bytes are sent are together the one and then the other. Nothing is sent before it
/// was asked for what had been written.
pub proof fn law_earlier_writes_go_first(c: SendCall, fds: Fds, ev: Event)
    requires
        send_fits(c.phase, ev),
    ensures
        ({
            let (p, action) = send_next(c, fds, ev);
            &&& action matches ActionModel::Send { handle, bytes } ==> c.phase
                == SendPhase::Taking(handle) && joined(chunks(bytes), chunks(bytes).len())
                == ev->Written_0@ + c.data@
            &&& p is Taking ==> action is TakeWritten
        }),
{
    if c.phase is Taking {
        law_chunks_are_the_data(ev->Written_0@ + c.data@);
    }
}

/// Where `close` stands.
#[derive(Debug, Clone, Copy, PartialEq, Eq, Structural)]
pub enum ClosePhase {
    Start,
    Client(u64),
    Closing,
    Releasing,
    Over,
}

/// `close` on a socket.
pub struct CloseCall {
    pub fd: i32,
    pub phase: ClosePhase,
}

/// Whether an event is one that a phase waits for.
pub open spec fn close_fits(p: ClosePhase, ev: Event) -> bool {
    match p {
        ClosePhase::Client(_) => ev is Client,
        ClosePhase::Over => false,
        _ => true,
    }
}

/// The socket is forgotten, and both ends of its pair are to be closed.
pub open spec fn released(fd: i32, fds: Fds) -> (ClosePhase, Fds, ActionModel) {
    if fds.contains_key(fd) {
        (
            ClosePhase::Releasing,
            fds.remove(fd),
            ActionModel::Release {
                open: fds[fd].handle,
                app_fd: fds[fd].app_fd,
                inner_fd: fds[fd].inner_fd,
            },
        )
    } else {
        (ClosePhase::Over, fds, ActionModel::Return(0))
    }
}

/// What `close` does on an event.
pub open spec fn close_next(c: CloseCall, fds: Fds, ev: Event) -> (ClosePhase, Fds, ActionModel) {
    match c.phase {
        ClosePhase::Start => if !fds.contains_key(c.fd) {
            (ClosePhase::Over, fds, ActionModel::PassThrough)
        } else {
            match fds[c.fd].handle {
                Some(h) => (ClosePhase::Client(h), fds, ActionModel::GetClient),
                None => released(c.fd, fds),
            }
        },
        ClosePhase::Client(handle) => if ev->Client_0 {
            (ClosePhase::Closing, fds, ActionModel::Close { handle })
        } else {
            released(c.fd, fds)
        },
        ClosePhase::Closing => released(c.fd, fds),
        ClosePhase::Releasing => (ClosePhase::Over, fds, ActionModel::Return(0)),
        ClosePhase::Over => (ClosePhase::Over, fds, ActionModel::PassThrough),
    }
}

impl CloseCall {
    fn release(&mut self, st: &mut State) -> (r: Action)
        ensures
            (final(self).phase, final(st)@, r@) == released(old(self).fd, old(st)@),
            final(self).fd == old(self).fd,
    {
        match st.destroy_ax25_fd(self.fd) {
            Some(s) => {
                self.phase = ClosePhase::Releasing;
                Action::Release { open: s.handle, app_fd: s.app_fd, inner_fd: s.inner_fd }
            },
            None => {
                self.phase = ClosePhase::Over;
                assert(st@ =~= old(st)@);
                Action::Return(0)
            },
        }
    }

    /// The next step: the handle, if any, is closed with the engine, if it can be
    /// reached; whatever comes of that, the socket is forgotten and its pair closed.
    pub fn next(&mut self, st: &mut State, ev: Event) -> (r: Action)
        requires
            close_fits(old(self).phase, ev),
        ensures
            (final(self).phase, final(st)@, r@) == close_next(*old(self), old(st)@, ev),
            final(self).fd == old(self).fd,
    {
        match self.phase {
            ClosePhase::Start => {
                if !st.is_ax25_fd(self.fd) {
                    self.phase = ClosePhase::Over;
                    return Action::PassThrough;
                }
                match st.handle_of(self.fd) {
                    Some(h) => {
                        self.phase = ClosePhase::Client(h);
                        Action::GetClient
                    },
                    None => self.release(st),
                }
            },
            ClosePhase::Client(handle) => {
                let reached = match ev {
                    Event::Client(b) => b,
                    _ => false,
                };
                if reached {
                    self.phase = ClosePhase::Closing;
                    Action::Close { handle }
                } else {
                    self.release(st)
                }
            },
            ClosePhase::Closing => self.release(st),
            ClosePhase::Releasing => {
                self.phase = ClosePhase::Over;
                Action::Return(0)
            },
            ClosePhase::Over => unreached(),
        }
    }
}

/// Closing forgets the socket and no other, whether or not the engine can be
/// reached, and never fails.
pub proof fn law_close_always_releases(c: CloseCall, fds: Fds, ev: Event, other: i32)
    requires
        close_fits(c.phase, ev),
    ensures
        ({
            let (p, after, action) = close_next(c, fds, ev);
            &&& !(action is Fail)
            &&& p == ClosePhase::Releasing && c.phase != ClosePhase::Releasing
                ==> !after.contains_key(c.fd) && action is Release
            &&& other != c.fd ==> after.contains_key(other) == fds.contains_key(other) && (
            fds.contains_key(other) ==> after[other] == fds[other])
        }),
{
}

/// A call on a descriptor that is not ours changes nothing and is passed on.
pub proof fn law_other_descriptors_pass_through(
    bind: BindCall,
    listen: ListenCall,
    connect: ConnectCall,
    accept: AcceptCall,
    close: CloseCall,
    fds: Fds,
    ev: Event,
)
    requires
        !bind.opening,
        listen.phase == ListenPhase::Start,
        connect.phase == ConnectPhase::Start,
        accept.phase == AcceptPhase::Start,
        close.phase == ClosePhase::Start,
    ensures
        !fds.contains_key(bind.fd) ==> bind_next(bind, fds, ev) == (
            false,
            fds,
            ActionModel::PassThrough,
        ),
        !fds.contains_key(listen.fd) ==> listen_next(listen, fds, ev) == (
            ListenPhase::Over,
            fds,
            ActionModel::PassThrough,
        ),
        !fds.contains_key(connect.fd) ==> connect_next(connect, fds, ev) == (
            ConnectPhase::Over,
            fds,
            ActionModel::PassThrough,
        ),
        !fds.contains_key(accept.fd) ==> accept_next(accept, fds, ev) == (
            AcceptPhase::Over,
            fds,
            ActionModel::PassThrough,
        ),
        !fds.contains_key(close.fd) ==> close_next(close, fds, ev) == (
            ClosePhase::Over,
            fds,
            ActionModel::PassThrough,
        ),
{
}

} // verus!
