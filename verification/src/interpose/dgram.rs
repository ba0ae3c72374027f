//! Datagram calls: the handle of a socket, sending and receiving.

use vstd::pervasive::unreached;
use vstd::prelude::*;

use super::calls::{Action, ActionModel, Event};
use super::sink::DgramOutcome;
use super::state::{
    ax25_dgram_recv, datagram_for, delivered, no_client_errno, Call, Dest, DgramOpened, DgramRecv,
    DgramStep, FdModel, Fds, OutgoingModel, State,
};
use crate::errno::{EAGAIN, EBADF, ECONNREFUSED, EIO, ENOTCONN};
use crate::rhp::messages::string_view;

verus! {

/// Where opening the handle of a datagram socket stands.
#[derive(Debug, Clone, Copy, PartialEq, Eq, Structural)]
pub enum EnsurePhase {
    Start,
    Client,
    Opening,
    Binding(u64),
    /// A handle is being closed; then it fails with this errno.
    Failing(i32),
    /// A handle is being closed; then this one is handed on.
    Yielding(u64),
    Registering(u64),
    Over,
}

/// Opening the handle of a datagram socket on first use.
pub struct EnsureCall {
    pub fd: i32,
    pub local: Option<String>,
    pub phase: EnsurePhase,
}

/// Whether an event is one that a phase waits for.
pub open spec fn ensure_fits(p: EnsurePhase, ev: Event) -> bool {
    match p {
        EnsurePhase::Over => false,
        EnsurePhase::Client => ev is Client,
        EnsurePhase::Opening => ev is Handle,
        EnsurePhase::Binding(_) => ev is Finished,
        _ => true,
    }
}

/// A handle was opened and bound: it becomes the socket's, unless another one was
/// faster or the socket is gone.
pub open spec fn ensure_store(fd: i32, fds: Fds, handle: u64) -> (EnsurePhase, Fds, ActionModel) {
    if !fds.contains_key(fd) {
        (EnsurePhase::Failing(EBADF), fds, ActionModel::Close { handle })
    } else {
        match fds[fd].handle {
            Some(h) => (EnsurePhase::Yielding(h), fds, ActionModel::Close { handle }),
            None => (
                EnsurePhase::Registering(handle),
                fds.insert(fd, FdModel { handle: Some(handle), ..fds[fd] }),
                ActionModel::RegisterDgram {
                    handle,
                    app_fd: fds[fd].app_fd,
                    inner_fd: fds[fd].inner_fd,
                },
            ),
        }
    }
}

/// What opening the handle of a datagram socket does on an event.
pub open spec fn ensure_next(
    fd: i32,
    local: Option<Seq<char>>,
    phase: EnsurePhase,
    fds: Fds,
    ev: Event,
) -> (EnsurePhase, Fds, ActionModel) {
    match phase {
        EnsurePhase::Start => if !fds.contains_key(fd) {
            (EnsurePhase::Over, fds, ActionModel::Fail(EBADF))
        } else {
            match fds[fd].handle {
                Some(h) => (EnsurePhase::Over, fds, ActionModel::Have(h)),
                None => (EnsurePhase::Client, fds, ActionModel::GetClient),
            }
        },
        EnsurePhase::Client => if ev->Client_0 {
            (EnsurePhase::Opening, fds, ActionModel::OpenSocket { dgram: true })
        } else {
            (EnsurePhase::Over, fds, ActionModel::Fail(ECONNREFUSED))
        },
        EnsurePhase::Opening => match ev->Handle_0 {
            Err(e) => (EnsurePhase::Over, fds, ActionModel::Fail(e@.errno())),
            Ok(h) => match local {
                Some(c) => (
                    EnsurePhase::Binding(h),
                    fds,
                    ActionModel::Bind { handle: h, local: c },
                ),
                None => ensure_store(fd, fds, h),
            },
        },
        EnsurePhase::Binding(h) => match ev->Finished_0 {
            Err(e) => (EnsurePhase::Failing(e@.errno()), fds, ActionModel::Close { handle: h }),
            Ok(_) => ensure_store(fd, fds, h),
        },
        EnsurePhase::Failing(e) => (EnsurePhase::Over, fds, ActionModel::Fail(e)),
        EnsurePhase::Yielding(h) | EnsurePhase::Registering(h) => (
            EnsurePhase::Over,
            fds,
            ActionModel::Have(h),
        ),
        EnsurePhase::Over => (EnsurePhase::Over, fds, ActionModel::PassThrough),
    }
}

impl EnsureCall {
    fn store(&mut self, st: &mut State, handle: u64) -> (r: Action)
        ensures
            (final(self).phase, final(st)@, r@) == ensure_store(old(self).fd, old(st)@, handle),
            final(self).fd == old(self).fd,
            final(self).local == old(self).local,
    {
        match st.dgram_opened(self.fd, handle) {
            DgramOpened::Gone => {
                self.phase = EnsurePhase::Failing(EBADF);
                Action::Close { handle }
            },
            DgramOpened::Lost(h) => {
                self.phase = EnsurePhase::Yielding(h);
                Action::Close { handle }
            },
            DgramOpened::Stored { app_fd, inner_fd } => {
                self.phase = EnsurePhase::Registering(handle);
                Action::RegisterDgram { handle, app_fd, inner_fd }
            },
        }
    }

    /// The next step: hand on the handle that is there; else reach the engine,
    /// allocate a handle, bind the callsign if there is one, and register it. What
    /// cannot be used is closed again.
    pub fn next(&mut self, st: &mut State, ev: Event) -> (r: Action)
        requires
            ensure_fits(old(self).phase, ev),
        ensures
            (final(self).phase, final(st)@, r@) == ensure_next(
                old(self).fd,
                string_view(old(self).local),
                old(self).phase,
                old(st)@,
                ev,
            ),
            final(self).fd == old(self).fd,
            string_view(final(self).local) == (if old(self).phase == EnsurePhase::Start
                && final(self).phase == EnsurePhase::Client {
                old(st)@[old(self).fd].local
            } else {
                string_view(old(self).local)
            }),
    {
        match self.phase {
            EnsurePhase::Start => match st.ensure_dgram_handle(self.fd) {
                DgramStep::Fail(e) => {
                    self.phase = EnsurePhase::Over;
                    Action::Fail(e)
                },
                DgramStep::Have(h) => {
                    self.phase = EnsurePhase::Over;
                    Action::Have(h)
                },
                DgramStep::Open(local) => {
                    self.local = local;
                    self.phase = EnsurePhase::Client;
                    Action::GetClient
                },
            },
            EnsurePhase::Client => {
                let reached = match ev {
                    Event::Client(b) => b,
                    _ => false,
                };
                if reached {
                    self.phase = EnsurePhase::Opening;
                    Action::OpenSocket { dgram: true }
                } else {
                    self.phase = EnsurePhase::Over;
                    Action::Fail(no_client_errno(Call::DgramOpen))
                }
            },
            EnsurePhase::Opening => match ev {
                Event::Handle(Ok(h)) => match &self.local {
                    Some(c) => {
                        let local = c.clone();
                        self.phase = EnsurePhase::Binding(h);
                        Action::Bind { handle: h, local }
                    },
                    None => self.store(st, h),
                },
                Event::Handle(Err(e)) => {
                    self.phase = EnsurePhase::Over;
                    Action::Fail(e.to_errno())
                },
                _ => unreached(),
            },
            EnsurePhase::Binding(h) => match ev {
                Event::Finished(Ok(_)) => self.store(st, h),
                Event::Finished(Err(e)) => {
                    self.phase = EnsurePhase::Failing(e.to_errno());
                    Action::Close { handle: h }
                },
                _ => unreached(),
            },
            EnsurePhase::Failing(e) => {
                self.phase = EnsurePhase::Over;
                Action::Fail(e)
            },
            EnsurePhase::Yielding(h) => {
                self.phase = EnsurePhase::Over;
                Action::Have(h)
            },
            EnsurePhase::Registering(h) => {
                self.phase = EnsurePhase::Over;
                Action::Have(h)
            },
            EnsurePhase::Over => unreached(),
        }
    }
}

/// Where sending a datagram stands.
#[derive(Debug, Clone, Copy, PartialEq, Eq, Structural)]
pub enum SendToPhase {
    Start,
    Ensuring,
    Client(u64),
    Sending,
    Over,
}

/// Sending one datagram.
pub struct DgramSendCall {
    pub fd: i32,
    pub data: Vec<u8>,
    pub remote: String,
    pub local: String,
    pub wire: Vec<u8>,
    pub phase: SendToPhase,
}

/// What sending a datagram does on an event, once its destination, its source and
/// its wire form are known.
pub open spec fn sendto_next(
    c: DgramSendCall,
    fds: Fds,
    dest: Dest,
    configured: Option<String>,
    ev: Event,
) -> (SendToPhase, ActionModel) {
    match c.phase {
        SendToPhase::Start => (SendToPhase::Ensuring, ActionModel::EnsureDgram),
        SendToPhase::Ensuring => match ev->Ensured_0 {
            Err(e) => (SendToPhase::Over, ActionModel::Fail(e)),
            Ok(h) => match datagram_for(fds, c.fd, dest, c.data@, configured) {
                Err(e) => (SendToPhase::Over, ActionModel::Fail(e)),
                Ok(_) => (SendToPhase::Client(h), ActionModel::GetClient),
            },
        },
        SendToPhase::Client(handle) => if ev->Client_0 {
            (
                SendToPhase::Sending,
                ActionModel::SendTo {
                    handle,
                    remote: c.remote@,
                    local: c.local@,
                    wire: c.wire@,
                },
            )
        } else {
            (SendToPhase::Over, ActionModel::Fail(EIO))
        },
        SendToPhase::Sending => match ev->Finished_0 {
            Ok(_) => (SendToPhase::Over, ActionModel::Return(c.data@.len() as int)),
            Err(e) => (SendToPhase::Over, ActionModel::Fail(e@.errno())),
        },
        SendToPhase::Over => (SendToPhase::Over, ActionModel::PassThrough),
    }
}

/// Whether an event is one that a phase waits for.
pub open spec fn sendto_fits(p: SendToPhase, ev: Event) -> bool {
    match p {
        SendToPhase::Start => true,
        SendToPhase::Ensuring => ev is Ensured,
        SendToPhase::Client(_) => ev is Client,
        SendToPhase::Sending => ev is Finished,
        SendToPhase::Over => false,
    }
}

impl DgramSendCall {
    /// A datagram with this payload is to be sent on a socket.
    pub fn new(fd: i32, data: Vec<u8>) -> (r: DgramSendCall)
        ensures
            r.fd == fd,
            r.data == data,
            r.phase == SendToPhase::Start,
    {
        DgramSendCall {
            fd,
            data,
            remote: String::new(),
            local: String::new(),
            wire: Vec::new(),
            phase: SendToPhase::Start,
        }
    }

    /// The next step: open the handle, find the destination and the source, put the
    /// protocol id in front unless it is there, reach the engine and send. The
    /// whole payload then counts as sent.
    pub fn next(&mut self, st: &State, dest: Dest, configured: Option<String>, ev: Event) -> (r:
        Action)
        requires
            sendto_fits(old(self).phase, ev),
            old(self).data@.len() <= i64::MAX,
        ensures
            (final(self).phase, r@) == sendto_next(*old(self), st@, dest, configured, ev),
            final(self).fd == old(self).fd,
            final(self).data == old(self).data,
            final(self).phase is Client ==> datagram_for(
                st@,
                old(self).fd,
                dest,
                old(self).data@,
                configured,
            ) == Ok::<OutgoingModel, i32>(
                OutgoingModel {
                    remote: final(self).remote@,
                    local: final(self).local@,
                    wire: final(self).wire@,
                },
            ),
    {
        match self.phase {
            SendToPhase::Start => {
                self.phase = SendToPhase::Ensuring;
                Action::EnsureDgram
            },
            SendToPhase::Ensuring => match ev {
                Event::Ensured(Err(e)) => {
                    self.phase = SendToPhase::Over;
                    Action::Fail(e)
                },
                Event::Ensured(Ok(h)) => match st.ax25_dgram_send(
                    self.fd,
                    dest,
                    self.data.as_slice(),
                    configured,
                ) {
                    Err(e) => {
                        self.phase = SendToPhase::Over;
                        Action::Fail(e)
                    },
                    Ok(o) => {
                        self.remote = o.remote;
                        self.local = o.local;
                        self.wire = o.wire;
                        self.phase = SendToPhase::Client(h);
                        Action::GetClient
                    },
                },
                _ => unreached(),
            },
            SendToPhase::Client(handle) => {
                let reached = match ev {
                    Event::Client(b) => b,
                    _ => false,
                };
                if reached {
                    self.phase = SendToPhase::Sending;
                    Action::SendTo {
                        handle,
                        remote: self.remote.clone(),
                        local: self.local.clone(),
                        wire: vstd::slice::slice_to_vec(self.wire.as_slice()),
                    }
                } else {
                    self.phase = SendToPhase::Over;
                    Action::Fail(no_client_errno(Call::Send))
                }
            },
            SendToPhase::Sending => {
                self.phase = SendToPhase::Over;
                match ev {
                    Event::Finished(Ok(_)) => Action::Return(self.data.len() as i64),
                    Event::Finished(Err(e)) => Action::Fail(e.to_errno()),
                    _ => unreached(),
                }
            },
            SendToPhase::Over => unreached(),
        }
    }
}

/// Where receiving a datagram stands.
#[derive(Debug, Clone, Copy, PartialEq, Eq, Structural)]
pub enum RecvFromPhase {
    Start,
    Ensuring,
    /// The handle, and whether the payload is wanted with its protocol id.
    Asking(u64, bool),
    /// The same, and whether the reader must not wait.
    Looking(u64, bool, bool),
    Waiting(u64, bool, bool),
    Over,
}

/// Receiving one datagram.
pub struct DgramRecvCall {
    pub fd: i32,
    /// How many bytes the application has room for.
    pub room: usize,
    /// This call must not wait.
    pub dont_wait: bool,
    pub phase: RecvFromPhase,
}

/// What receiving a datagram does on an event.
pub open spec fn recvfrom_next(c: DgramRecvCall, fds: Fds, ev: Event) -> (
    RecvFromPhase,
    ActionModel,
) {
    match c.phase {
        RecvFromPhase::Start => (RecvFromPhase::Ensuring, ActionModel::EnsureDgram),
        RecvFromPhase::Ensuring => match ev->Ensured_0 {
            Err(e) => (RecvFromPhase::Over, ActionModel::Fail(e)),
            Ok(h) => (
                RecvFromPhase::Asking(h, fds.contains_key(c.fd) && fds[c.fd].pidincl),
                ActionModel::AskNonblocking,
            ),
        },
        RecvFromPhase::Asking(h, pidincl) => (
            RecvFromPhase::Looking(h, pidincl, ev->Flag_0 || c.dont_wait),
            ActionModel::LookInbox { handle: h },
        ),
        RecvFromPhase::Looking(h, pidincl, nonblocking) => match ev->Looked_0 {
            DgramOutcome::Got(d) => (
                RecvFromPhase::Over,
                ActionModel::Deliver {
                    payload: delivered(d@, pidincl, c.room as nat),
                    source: match d@.source {
                        Some(s) => s,
                        None => Seq::empty(),
                    },
                },
            ),
            DgramOutcome::Eof => (RecvFromPhase::Over, ActionModel::Return(0)),
            DgramOutcome::NoHandle => (RecvFromPhase::Over, ActionModel::Fail(ENOTCONN)),
            DgramOutcome::Empty => if nonblocking {
                (RecvFromPhase::Over, ActionModel::Fail(EAGAIN))
            } else {
                (RecvFromPhase::Waiting(h, pidincl, nonblocking), ActionModel::WaitReadable)
            },
        },
        RecvFromPhase::Waiting(h, pidincl, nonblocking) => (
            RecvFromPhase::Looking(h, pidincl, nonblocking),
            ActionModel::LookInbox { handle: h },
        ),
        RecvFromPhase::Over => (RecvFromPhase::Over, ActionModel::PassThrough),
    }
}

/// Whether an event is one that a phase waits for.
pub open spec fn recvfrom_fits(p: RecvFromPhase, ev: Event) -> bool {
    match p {
        RecvFromPhase::Start | RecvFromPhase::Waiting(_, _, _) => true,
        RecvFromPhase::Ensuring => ev is Ensured,
        RecvFromPhase::Asking(_, _) => ev is Flag,
        RecvFromPhase::Looking(_, _, _) => ev is Looked,
        RecvFromPhase::Over => false,
    }
}

impl DgramRecvCall {
    /// The next step: open the handle, and look into its inbox until there is a
    /// datagram, the end, or no reason to wait.
    pub fn next(&mut self, st: &State, ev: Event) -> (r: Action)
        requires
            recvfrom_fits(old(self).phase, ev),
        ensures
            (final(self).phase, r@) == recvfrom_next(*old(self), st@, ev),
            final(self).fd == old(self).fd,
            final(self).room == old(self).room,
            final(self).dont_wait == old(self).dont_wait,
    {
        match self.phase {
            RecvFromPhase::Start => {
                self.phase = RecvFromPhase::Ensuring;
                Action::EnsureDgram
            },
            RecvFromPhase::Ensuring => match ev {
                Event::Ensured(Err(e)) => {
                    self.phase = RecvFromPhase::Over;
                    Action::Fail(e)
                },
                Event::Ensured(Ok(h)) => {
                    self.phase = RecvFromPhase::Asking(h, st.pidincl(self.fd));
                    Action::AskNonblocking
                },
                _ => unreached(),
            },
            RecvFromPhase::Asking(h, pidincl) => {
                let flag = match ev {
                    Event::Flag(b) => b,
                    _ => false,
                };
                self.phase = RecvFromPhase::Looking(h, pidincl, flag || self.dont_wait);
                Action::LookInbox { handle: h }
            },
            RecvFromPhase::Looking(h, pidincl, nonblocking) => match ev {
                Event::Looked(outcome) => match ax25_dgram_recv(
                    outcome,
                    pidincl,
                    nonblocking,
                    self.room,
                ) {
                    DgramRecv::Deliver { payload, source } => {
                        self.phase = RecvFromPhase::Over;
                        Action::Deliver { payload, source }
                    },
                    DgramRecv::Eof => {
                        self.phase = RecvFromPhase::Over;
                        Action::Return(0)
                    },
                    DgramRecv::Fail(e) => {
                        self.phase = RecvFromPhase::Over;
                        Action::Fail(e)
                    },
                    DgramRecv::Wait => {
                        self.phase = RecvFromPhase::Waiting(h, pidincl, nonblocking);
                        Action::WaitReadable
                    },
                },
                _ => unreached(),
            },
            RecvFromPhase::Waiting(h, pidincl, nonblocking) => {
                self.phase = RecvFromPhase::Looking(h, pidincl, nonblocking);
                Action::LookInbox { handle: h }
            },
            RecvFromPhase::Over => unreached(),
        }
    }
}

/// A handle that was opened is never left behind: it becomes the socket's, or it
/// is closed.
pub proof fn law_no_handle_is_left_open(
    fd: i32,
    local: Option<Seq<char>>,
    phase: EnsurePhase,
    fds: Fds,
    ev: Event,
    handle: u64,
)
    requires
        phase == EnsurePhase::Opening && (ev matches Event::Handle(Ok(h)) && h == handle) || phase
            == EnsurePhase::Binding(handle) && ev is Finished,
    ensures
        ({
            let (p, after, action) = ensure_next(fd, local, phase, fds, ev);
            ||| p == EnsurePhase::Binding(handle)
            ||| action == ActionModel::Close { handle }
            ||| after.contains_key(fd) && after[fd].handle == Some(handle)
        }),
{
}

/// Opening a handle is idempotent: once a socket has one, it is handed on as it
/// is, without any request.
pub proof fn law_handle_is_opened_once(fd: i32, local: Option<Seq<char>>, fds: Fds, ev: Event)
    requires
        fds.contains_key(fd),
        fds[fd].handle is Some,
    ensures
        ensure_next(fd, local, EnsurePhase::Start, fds, ev) == (
            EnsurePhase::Over,
            fds,
            ActionModel::Have(fds[fd].handle->Some_0),
        ),
{
}

/// A reader that must not wait never waits.
pub proof fn law_nonblocking_never_waits(c: DgramRecvCall, fds: Fds, ev: Event)
    requires
        recvfrom_fits(c.phase, ev),
        c.phase matches RecvFromPhase::Looking(_, _, nonblocking) && nonblocking,
    ensures
        recvfrom_next(c, fds, ev).0 == RecvFromPhase::Over,
{
}

} // verus!
