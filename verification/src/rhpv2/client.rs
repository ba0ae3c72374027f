//! The client with its two registries, without its transport.
//!
//! An outbound link is not up on the reply to `open`, only once a `status` push
//! with the connected bit arrives: a registry keeps the phase of each handle.
//! Inbound calls queue up for each listener until they are accepted.

use std::collections::{HashMap, VecDeque};

use vstd::prelude::*;

use crate::errno::{ECONNREFUSED, ECONNRESET, ETIMEDOUT};
use crate::rhp::client::{
    answer, chunks, handle_result, is_reply_step, is_request, open_request, owned, payload, payload_of, plain_result,
    push_view, result_view, send_fields, ClientModel, OpenResult, Outcome, Push, PushModel,
    Received, Request, RhpError, RhpErrorModel,
};
use crate::rhp::codec::{to_wire_string, wire_string};
use crate::rhp::errors::{errcode_to_errno, errno_of};
use crate::rhp::framing::MAX_FRAME;
use crate::rhp::json::{json_document, Fields};
use crate::rhp::messages::{
    frame_of, number_field, string_view, text_field, text_of, unsigned_of, AuthReq, BindReq,
    CloseReq, Frame, FrameModel, ListenReq, SendToReq, SocketReq, OPEN_FLAG_ACTIVE, OPEN_FLAG_PASSIVE, STATUS_CONNECTED,
};
use crate::text::same_text;

verus! {

broadcast use vstd::std_specs::hash::group_hash_axioms;

/// The link state of an outbound connect.
#[derive(Debug, Clone, Copy, PartialEq, Eq, Structural)]
pub enum ConnPhase {
    /// The `open` was accepted; the handshake is under way.
    Pending,
    /// The link is up.
    Connected,
    /// The connect failed, with this errno.
    Failed(i32),
}

/// An inbound connection that waits to be accepted.
#[derive(Debug, Clone)]
pub struct AcceptInfo {
    /// The handle of the new connection.
    pub child_handle: u64,
    /// The caller's callsign, where the engine reported one.
    pub remote: Option<String>,
    /// The callsign that was called, where the engine reported one.
    pub local: Option<String>,
}

/// The mathematical value of an `AcceptInfo`.
#[verifier::ext_equal]
pub struct AcceptModel {
    pub child_handle: u64,
    pub remote: Option<Seq<char>>,
    pub local: Option<Seq<char>>,
}

impl View for AcceptInfo {
    type V = AcceptModel;

    open spec fn view(&self) -> AcceptModel {
        AcceptModel {
            child_handle: self.child_handle,
            remote: string_view(self.remote),
            local: string_view(self.local),
        }
    }
}

/// The value of an optional accepted call.
pub open spec fn accept_view(a: Option<AcceptInfo>) -> Option<AcceptModel> {
    match a {
        Some(x) => Some(x@),
        None => None,
    }
}

/// The phases of the handles that are being followed.
pub type Phases = Map<u64, ConnPhase>;

/// Tracks a handle from its `open` on; a phase that a push has already set stays.
pub open spec fn armed(m: Phases, handle: u64) -> Phases {
    if m.contains_key(handle) {
        m
    } else {
        m.insert(handle, ConnPhase::Pending)
    }
}

/// A pending connect fails; any other phase stays.
pub open spec fn failed(m: Phases, handle: u64, errno: i32) -> Phases {
    if m.contains_key(handle) && m[handle] == ConnPhase::Pending {
        m.insert(handle, ConnPhase::Failed(errno))
    } else {
        m
    }
}

/// Every pending connect fails; any other phase stays.
pub open spec fn all_failed(m: Phases, errno: i32) -> Phases {
    m.map_values(
        |p: ConnPhase|
            if p == ConnPhase::Pending {
                ConnPhase::Failed(errno)
            } else {
                p
            },
    )
}

/// The outcome of a connect: `None` while it is open.
pub open spec fn connect_outcome(m: Phases, handle: u64) -> Option<Result<(), i32>> {
    if m.contains_key(handle) {
        match m[handle] {
            ConnPhase::Pending => None,
            ConnPhase::Connected => Some(Ok(())),
            ConnPhase::Failed(e) => Some(Err(e)),
        }
    } else {
        None
    }
}

/// The error of a failed connect; 0 otherwise.
pub open spec fn pending_error(m: Phases, handle: u64) -> i32 {
    match connect_outcome(m, handle) {
        Some(Err(e)) => e,
        _ => 0,
    }
}

/// Once its error has been read, a failed connect reports none any longer.
pub open spec fn error_cleared(m: Phases, handle: u64) -> Phases {
    if pending_error(m, handle) != 0 {
        m.insert(handle, ConnPhase::Connected)
    } else {
        m
    }
}

/// The connect phase of each handle.
pub(crate) struct ConnRegistry {
    map: HashMap<u64, ConnPhase>,
}

impl View for ConnRegistry {
    type V = Phases;

    closed spec fn view(&self) -> Phases {
        self.map@
    }
}

impl ConnRegistry {
    pub(crate) fn new() -> (r: ConnRegistry)
        ensures
            r@ == Map::<u64, ConnPhase>::empty(),
    {
        ConnRegistry { map: HashMap::new() }
    }

    /// Starts to track a handle. Never downgrades a phase that a racing push set.
    pub(crate) fn set_pending(&mut self, handle: u64)
        ensures
            final(self)@ == armed(old(self)@, handle),
    {
        if !self.map.contains_key(&handle) {
            self.map.insert(handle, ConnPhase::Pending);
        }
    }

    pub(crate) fn mark_connected(&mut self, handle: u64)
        ensures
            final(self)@ == old(self)@.insert(handle, ConnPhase::Connected),
    {
        self.map.insert(handle, ConnPhase::Connected);
    }

    /// Fails a connect that is still pending. The close of a handle that is
    /// connected is an ordinary end of it, not a failed connect.
    pub(crate) fn mark_failed(&mut self, handle: u64, errno: i32)
        ensures
            final(self)@ == failed(old(self)@, handle, errno),
    {
        let pending = match self.map.get(&handle) {
            Some(p) => *p == ConnPhase::Pending,
            None => false,
        };
        if pending {
            self.map.insert(handle, ConnPhase::Failed(errno));
        }
    }

    /// Fails every connect that is still pending.
    pub(crate) fn fail_all_pending(&mut self, errno: i32)
        ensures
            final(self)@ == all_failed(old(self)@, errno),
    {
        let mut next: HashMap<u64, ConnPhase> = HashMap::new();
        let ghost before = self.map@;
        for handle in it: self.map.keys()
            invariant
                self.map@ == before,
                it.seq().unref().no_duplicates(),
                it.seq().unref().to_set() == before.dom(),
                forall|h: u64|
                    #[trigger] next@.contains_key(h) <==> exists|i: int|
                        0 <= i < it.index() && *(#[trigger] it.seq()[i]) == h,
                forall|h: u64|
                    #[trigger] next@.contains_key(h) ==> before.contains_key(h) && next@[h]
                        == all_failed(before, errno)[h],
        {
            assert(before.contains_key(*handle)) by {
                assert(it.seq().unref()[it.index()] == *handle);
                assert(it.seq().unref().to_set().contains(*handle));
            }
            let phase: ConnPhase = match self.map.get(handle) {
                Some(p) => *p,
                None => ConnPhase::Pending,
            };
            let phase: ConnPhase = if phase == ConnPhase::Pending {
                ConnPhase::Failed(errno)
            } else {
                phase
            };
            next.insert(*handle, phase);
        }
        self.map = next;
        assert(self@ =~= all_failed(before, errno));
    }

    pub(crate) fn result(&self, handle: u64) -> (r: Option<Result<(), i32>>)
        ensures
            r == connect_outcome(self@, handle),
    {
        match self.map.get(&handle) {
            Some(ConnPhase::Connected) => Some(Ok(())),
            Some(ConnPhase::Failed(e)) => Some(Err(*e)),
            _ => None,
        }
    }

    /// Reads and clears the error of a failed connect.
    pub(crate) fn take_error(&mut self, handle: u64) -> (r: i32)
        ensures
            r == pending_error(old(self)@, handle),
            final(self)@ == error_cleared(old(self)@, handle),
    {
        let e: i32 = match self.map.get(&handle) {
            Some(ConnPhase::Failed(e)) => *e,
            _ => 0,
        };
        if e != 0 {
            self.map.insert(handle, ConnPhase::Connected);
        }
        e
    }

    pub(crate) fn forget(&mut self, handle: u64)
        ensures
            final(self)@ == old(self)@.remove(handle),
    {
        self.map.remove(&handle);
    }
}

/// The calls that wait on each listener, in the order in which they came.
pub type Queues = Map<u64, Seq<AcceptModel>>;

/// The calls that wait on a listener.
pub open spec fn queue_of(m: Queues, listener: u64) -> Seq<AcceptModel> {
    if m.contains_key(listener) {
        m[listener]
    } else {
        Seq::empty()
    }
}

/// One more call waits.
pub open spec fn queued(m: Queues, listener: u64, info: AcceptModel) -> Queues {
    m.insert(listener, queue_of(m, listener).push(info))
}

/// The first call that waits, if any.
pub open spec fn next_call(m: Queues, listener: u64) -> Option<AcceptModel> {
    if queue_of(m, listener).len() > 0 {
        Some(queue_of(m, listener)[0])
    } else {
        None
    }
}

/// The first call, if any, waits no longer.
pub open spec fn dequeued(m: Queues, listener: u64) -> Queues {
    if queue_of(m, listener).len() > 0 {
        m.insert(listener, queue_of(m, listener).drop_first())
    } else {
        m
    }
}

/// The values of a queue.
pub open spec fn queue_view(q: Seq<AcceptInfo>) -> Seq<AcceptModel> {
    q.map_values(|a: AcceptInfo| a@)
}

/// The calls that wait to be accepted, for each listener.
pub struct AcceptRegistry {
    map: HashMap<u64, VecDeque<AcceptInfo>>,
}

impl View for AcceptRegistry {
    type V = Queues;

    closed spec fn view(&self) -> Queues {
        self.map@.map_values(|q: VecDeque<AcceptInfo>| queue_view(q@))
    }
}

impl AcceptRegistry {
    /// No calls wait.
    pub fn new() -> (r: AcceptRegistry)
        ensures
            r@ == Map::<u64, Seq<AcceptModel>>::empty(),
    {
        let r = AcceptRegistry { map: HashMap::new() };
        assert(r@ =~= Map::empty());
        r
    }

    /// One more call waits.
    pub fn push(&mut self, listener: u64, info: AcceptInfo)
        ensures
            final(self)@ == queued(old(self)@, listener, info@),
    {
        let mut q = match self.map.remove(&listener) {
            Some(q) => q,
            None => VecDeque::new(),
        };
        assert(queue_view(q@) =~= queue_of(old(self)@, listener));
        q.push_back(info);
        assert(queue_view(q@) =~= queue_of(old(self)@, listener).push(info@));
        self.map.insert(listener, q);
        assert(self@ =~= queued(old(self)@, listener, info@));
    }

    /// Takes the first call that waits on a listener, if any.
    pub fn pop(&mut self, listener: u64) -> (r: Option<AcceptInfo>)
        ensures
            accept_view(r) == next_call(old(self)@, listener),
            final(self)@ == dequeued(old(self)@, listener),
    {
        match self.map.remove(&listener) {
            Some(q) => {
                let mut q = q;
                assert(queue_view(q@) == queue_of(old(self)@, listener));
                let ghost before = q@;
                let r = q.pop_front();
                proof {
                    if before.len() > 0 {
                        assert(queue_view(q@) =~= queue_view(before).drop_first());
                        assert(queue_view(before)[0] == r->Some_0@);
                    } else {
                        assert(queue_view(q@) =~= queue_view(before));
                    }
                }
                self.map.insert(listener, q);
                assert(self@ =~= dequeued(old(self)@, listener));
                r
            },
            None => {
                assert(self@ =~= old(self)@);
                None
            },
        }
    }

    /// Drops the calls on a listener.
    pub fn forget(&mut self, listener: u64)
        ensures
            final(self)@ == old(self)@.remove(listener),
    {
        self.map.remove(&listener);
        assert(self@ =~= old(self)@.remove(listener));
    }
}

/// What a frame means as a push. A `recv` that names its sender is a datagram.
pub open spec fn push_of(f: FrameModel) -> Option<PushModel> {
    match unsigned_of(f.handle) {
        None => None,
        Some(handle) => if f.typ() == "recv"@ {
            if text_of(f.remote) is Some {
                Some(
                    PushModel::Dgram {
                        handle,
                        source: text_of(f.remote),
                        dest: text_of(f.local),
                        data: payload_of(f),
                    },
                )
            } else {
                Some(PushModel::Recv { handle, data: payload_of(f) })
            }
        } else if f.typ() == "accept"@ {
            match unsigned_of(f.child) {
                Some(child) => Some(
                    PushModel::Accept {
                        listener: handle,
                        child,
                        remote: text_of(f.remote),
                        local: text_of(f.local),
                    },
                ),
                None => None,
            }
        } else if f.typ() == "status"@ {
            Some(PushModel::Status { handle, flags: f.status_flags() })
        } else if f.typ() == "close"@ {
            Some(PushModel::Close { handle })
        } else {
            None
        },
    }
}

/// The errno of a connect that ends in a close: that of the reason it gives, or
/// a refusal where it gives none.
pub open spec fn close_errno(f: FrameModel) -> i32 {
    if f.errcode() == 0 {
        ECONNREFUSED
    } else {
        errno_of(f.errcode() as int)
    }
}

/// The mathematical value of an `RhpClient`.
#[verifier::ext_equal]
pub struct FullModel {
    pub base: ClientModel,
    pub conns: Phases,
    pub accepts: Queues,
}

impl FullModel {
    /// The client once a push has been taken in.
    pub open spec fn after_push(self, f: FrameModel) -> FullModel {
        match push_of(f) {
            Some(PushModel::Accept { listener, child, remote, local }) => FullModel {
                accepts: queued(
                    self.accepts,
                    listener,
                    AcceptModel { child_handle: child, remote, local },
                ),
                ..self
            },
            Some(PushModel::Status { handle, flags }) => if flags & STATUS_CONNECTED != 0 {
                FullModel { conns: self.conns.insert(handle, ConnPhase::Connected), ..self }
            } else {
                self
            },
            Some(PushModel::Close { handle }) => FullModel {
                conns: failed(self.conns, handle, close_errno(f)),
                ..self
            },
            _ => self,
        }
    }

    /// The client once a request has been made.
    pub open spec fn after_request(self) -> FullModel {
        FullModel { base: self.base.after_request(), ..self }
    }

    /// The client once it waits no longer for an id.
    pub open spec fn without(self, id: u64) -> FullModel {
        FullModel { base: self.base.without(id), ..self }
    }

    /// The client once a handle has been forgotten.
    pub open spec fn forgotten(self, handle: u64) -> FullModel {
        FullModel {
            base: self.base,
            conns: self.conns.remove(handle),
            accepts: self.accepts.remove(handle),
        }
    }

    /// The client once the transport has ended.
    pub open spec fn ended(self) -> FullModel {
        FullModel {
            base: self.base.ended(),
            conns: all_failed(self.conns, ECONNRESET),
            accepts: self.accepts,
        }
    }

    /// What a caller that waits for a connect is told; `None` to wait on.
    pub open spec fn connect_step(self, handle: u64, timed_out: bool) -> Option<
        Result<(), i32>,
    > {
        match connect_outcome(self.conns, handle) {
            Some(r) => Some(r),
            None => if self.base.closed {
                Some(Err(ECONNRESET))
            } else if timed_out {
                Some(Err(ETIMEDOUT))
            } else {
                None
            },
        }
    }

    /// What a caller that waits for a call is told; `None` to wait on.
    pub open spec fn accept_step(self, listener: u64, timed_out: bool) -> Option<
        Option<AcceptModel>,
    > {
        match next_call(self.accepts, listener) {
            Some(a) => Some(Some(a)),
            None => if timed_out || self.base.closed {
                Some(None)
            } else {
                None
            },
        }
    }
}

/// Whether a wait with a limit is over: its limit has passed since it began. One
/// without a limit never is.
pub open spec fn time_is_up(limit: Option<u128>, elapsed: u128) -> bool {
    limit matches Some(d) && d <= elapsed
}

fn is_time_up(limit: Option<u128>, elapsed: u128) -> (r: bool)
    ensures
        r == time_is_up(limit, elapsed),
{
    match limit {
        Some(d) => d <= elapsed,
        None => false,
    }
}

/// The value of a step of a caller that waits for a call.
pub open spec fn step_view(s: Option<Option<AcceptInfo>>) -> Option<Option<AcceptModel>> {
    match s {
        Some(a) => Some(accept_view(a)),
        None => None,
    }
}

/// The members of the request for one datagram.
pub open spec fn sendto_fields(
    id: u64,
    handle: u64,
    remote: Seq<char>,
    local: Seq<char>,
    data: Seq<u8>,
) -> Fields {
    text_field("type"@, "sendto"@) + number_field("id"@, id) + number_field("handle"@, handle)
        + text_field("remote"@, remote) + text_field("local"@, local) + text_field(
        "data"@,
        wire_string(data),
    )
}

/// Requests, connects and inbound calls of one connection.
pub struct RhpClient {
    base: crate::rhp::client::RhpClient,
    conns: ConnRegistry,
    accepts: AcceptRegistry,
}

impl View for RhpClient {
    type V = FullModel;

    closed spec fn view(&self) -> FullModel {
        FullModel { base: self.base@, conns: self.conns@, accepts: self.accepts@ }
    }
}

impl RhpClient {
    /// A client that has made no request yet.
    pub fn new() -> (r: RhpClient)
        ensures
            r@.base.wf(),
            r@ == (FullModel {
                base: ClientModel { issued: 0, waiting: Set::empty(), closed: false },
                conns: Map::empty(),
                accepts: Map::empty(),
            }),
    {
        RhpClient {
            base: crate::rhp::client::RhpClient::new(),
            conns: ConnRegistry::new(),
            accepts: AcceptRegistry::new(),
        }
    }

    /// True once the transport has closed.
    pub fn is_closed(&self) -> (r: bool)
        ensures
            r == self@.base.closed,
    {
        self.base.is_closed()
    }

    /// Whether another request can be made.
    pub fn can_request(&self) -> (r: bool)
        ensures
            r == (self@.base.issued < u64::MAX),
    {
        self.base.can_request()
    }

    /// Whether a request still waits for its reply.
    pub fn is_waiting(&self, id: u64) -> (r: bool)
        ensures
            r == self@.base.waiting.contains(id),
    {
        self.base.is_waiting(id)
    }

    /// One look at a request that was sent: what became of it, or `None` to wait on.
    /// `reply` is the reply to it, if that has come; times are in nanoseconds.
    pub fn reply_step(&self, id: u64, reply: Option<Frame>, limit: u128, elapsed: u128) -> (r:
        Option<Outcome>)
        ensures
            is_reply_step(self@.base.waiting.contains(id), reply, limit, elapsed, r),
    {
        self.base.reply_step(id, reply, limit, elapsed)
    }

    /// Authenticates.
    pub fn auth(&mut self, user: &str, pass: &str) -> (r: Request)
        requires
            old(self)@.base.wf(),
            old(self)@.base.issued < u64::MAX,
        ensures
            final(self)@ == old(self)@.after_request(),
            final(self)@.base.wf(),
            is_request(
                r,
                old(self)@.base,
                (AuthReq { typ: "auth", id: r.id, user, pass }).fields(),
            ),
    {
        self.base.auth(user, pass)
    }

    /// Authenticates where both a user and a password are configured; a loopback
    /// client does without.
    pub fn login(&mut self, user: Option<&str>, pass: Option<&str>) -> (r: Option<Request>)
        requires
            old(self)@.base.wf(),
            old(self)@.base.issued < u64::MAX,
        ensures
            final(self)@.base.wf(),
            match (user, pass) {
                (Some(u), Some(p)) => r is Some && final(self)@ == old(self)@.after_request()
                    && is_request(
                    r->Some_0,
                    old(self)@.base,
                    (AuthReq { typ: "auth", id: r->Some_0.id, user: u, pass: p }).fields(),
                ),
                _ => r is None && final(self)@ == old(self)@,
            },
    {
        self.base.login(user, pass)
    }

    /// Opens a link: `open` with the active flag.
    pub fn open_connect(&mut self, local: &str, remote: &str) -> (r: Request)
        requires
            old(self)@.base.wf(),
            old(self)@.base.issued < u64::MAX,
        ensures
            final(self)@ == old(self)@.after_request(),
            final(self)@.base.wf(),
            is_request(
                r,
                old(self)@.base,
                open_request(r.id, local, Some(remote), OPEN_FLAG_ACTIVE).fields(),
            ),
    {
        self.base.open_connect(local, remote)
    }

    /// Settles the `open` of a link. Success only means that the engine took the
    /// request: the handle is then followed, as pending unless a push was faster.
    pub fn finish_connect(&mut self, id: u64, outcome: Outcome) -> (r: Result<
        OpenResult,
        RhpError,
    >)
        requires
            old(self)@.base.wf(),
        ensures
            final(self)@.base.wf(),
            final(self)@ == (match r {
                Ok(o) => FullModel {
                    conns: armed(old(self)@.conns, o.handle),
                    ..old(self)@.without(id)
                },
                Err(_) => old(self)@.without(id),
            }),
            match r {
                Ok(o) => handle_result(outcome, "openReply missing handle"@) == Ok::<
                    u64,
                    RhpErrorModel,
                >(o.handle) && o.errcode == answer(outcome)->Ok_0.errcode() && string_view(
                    o.errtext,
                ) == answer(outcome)->Ok_0.errtext(),
                Err(e) => handle_result(outcome, "openReply missing handle"@) == Err::<
                    u64,
                    RhpErrorModel,
                >(e@),
            },
    {
        match self.base.finish_open(id, outcome) {
            Ok(o) => {
                self.conns.set_pending(o.handle);
                Ok(o)
            },
            Err(e) => Err(e),
        }
    }

    /// Opens a listener: `open` without a remote address, with the passive flag.
    pub fn open_listen(&mut self, local: &str) -> (r: Request)
        requires
            old(self)@.base.wf(),
            old(self)@.base.issued < u64::MAX,
        ensures
            final(self)@ == old(self)@.after_request(),
            final(self)@.base.wf(),
            is_request(
                r,
                old(self)@.base,
                open_request(r.id, local, None, OPEN_FLAG_PASSIVE).fields(),
            ),
    {
        self.base.open_listen(local)
    }

    /// Settles the `open` of a listener.
    pub fn finish_open(&mut self, id: u64, outcome: Outcome) -> (r: Result<OpenResult, RhpError>)
        requires
            old(self)@.base.wf(),
        ensures
            final(self)@ == old(self)@.without(id),
            final(self)@.base.wf(),
            match r {
                Ok(o) => handle_result(outcome, "openReply missing handle"@) == Ok::<
                    u64,
                    RhpErrorModel,
                >(o.handle) && o.errcode == answer(outcome)->Ok_0.errcode() && string_view(
                    o.errtext,
                ) == answer(outcome)->Ok_0.errtext(),
                Err(e) => handle_result(outcome, "openReply missing handle"@) == Err::<
                    u64,
                    RhpErrorModel,
                >(e@),
            },
    {
        self.base.finish_open(id, outcome)
    }

    /// Settles a request that returns nothing.
    pub fn finish(&mut self, id: u64, outcome: Outcome) -> (r: Result<(), RhpError>)
        requires
            old(self)@.base.wf(),
        ensures
            final(self)@ == old(self)@.without(id),
            final(self)@.base.wf(),
            result_view(r) == plain_result(outcome),
    {
        self.base.finish(id, outcome)
    }

    /// Settles a `socket`.
    pub fn finish_socket(&mut self, id: u64, outcome: Outcome) -> (r: Result<u64, RhpError>)
        requires
            old(self)@.base.wf(),
        ensures
            final(self)@ == old(self)@.without(id),
            final(self)@.base.wf(),
            result_view(r) == handle_result(outcome, "socketReply missing handle"@),
    {
        self.base.finish_socket(id, outcome)
    }

    /// One look of a caller that waits for a connect: its outcome, or `None` to
    /// wait on. With a limit it gives up with `ETIMEDOUT` once that has passed since
    /// the wait began, whatever woke it in between; without one it waits until the
    /// connect is decided or the transport ends. Times are in nanoseconds.
    pub fn wait_connected(&self, handle: u64, limit: Option<u128>, elapsed: u128) -> (r: Option<
        Result<(), i32>,
    >)
        ensures
            r == self@.connect_step(handle, time_is_up(limit, elapsed)),
    {
        match self.conns.result(handle) {
            Some(r) => Some(r),
            None => {
                if self.base.is_closed() {
                    Some(Err(ECONNRESET))
                } else if is_time_up(limit, elapsed) {
                    Some(Err(ETIMEDOUT))
                } else {
                    None
                }
            },
        }
    }

    /// The outcome of a connect: `None` while it is pending.
    pub fn connect_result(&self, handle: u64) -> (r: Option<Result<(), i32>>)
        ensures
            r == connect_outcome(self@.conns, handle),
    {
        self.conns.result(handle)
    }

    /// Reads and clears the error of a failed connect: the errno once, then 0.
    pub fn take_connect_error(&mut self, handle: u64) -> (r: i32)
        ensures
            r == pending_error(old(self)@.conns, handle),
            final(self)@ == (FullModel {
                conns: error_cleared(old(self)@.conns, handle),
                ..old(self)@
            }),
    {
        self.conns.take_error(handle)
    }

    /// Sends data on a connected handle, chunk by chunk: the request for the next
    /// chunk, behind `sent` ones that were accepted; `None` once all were.
    pub fn send(&mut self, handle: u64, data: &[u8], sent: usize) -> (r: Option<Request>)
        requires
            old(self)@.base.wf(),
            old(self)@.base.issued < u64::MAX,
        ensures
            final(self)@.base.wf(),
            if sent < chunks(data@).len() {
                &&& r is Some
                &&& is_request(
                    r->Some_0,
                    old(self)@.base,
                    send_fields(r->Some_0.id, handle, chunks(data@)[sent as int]),
                )
                &&& r->Some_0.bytes@.len() <= MAX_FRAME
                &&& final(self)@ == old(self)@.after_request()
            } else {
                r is None && final(self)@ == old(self)@
            },
    {
        self.base.send(handle, data, sent)
    }

    /// Sends one datagram from the bound callsign `local`; `data` starts with the
    /// protocol id.
    pub fn sendto(&mut self, handle: u64, remote: &str, local: &str, data: &[u8]) -> (r: Request)
        requires
            old(self)@.base.wf(),
            old(self)@.base.issued < u64::MAX,
        ensures
            final(self)@ == old(self)@.after_request(),
            final(self)@.base.wf(),
            is_request(
                r,
                old(self)@.base,
                sendto_fields(r.id, handle, remote@, local@, data@),
            ),
    {
        let id: u64 = self.base.next_id();
        let wire = to_wire_string(data);
        let req = SendToReq { typ: "sendto", id, handle, remote, local, data: wire.as_str() };
        assert(req.fields() =~= sendto_fields(id, handle, remote@, local@, data@));
        Request { id, bytes: req.to_json().unwrap() }
    }

    /// Closes a handle; what is known of its connect and of calls on it is dropped.
    pub fn close(&mut self, handle: u64) -> (r: Request)
        requires
            old(self)@.base.wf(),
            old(self)@.base.issued < u64::MAX,
        ensures
            final(self)@ == old(self)@.forgotten(handle).after_request(),
            final(self)@.base.wf(),
            is_request(
                r,
                old(self)@.base,
                (CloseReq { typ: "close", id: r.id, handle }).fields(),
            ),
    {
        self.conns.forget(handle);
        self.accepts.forget(handle);
        self.base.close(handle)
    }

    /// Allocates a stream socket handle.
    pub fn socket(&mut self) -> (r: Request)
        requires
            old(self)@.base.wf(),
            old(self)@.base.issued < u64::MAX,
        ensures
            final(self)@ == old(self)@.after_request(),
            final(self)@.base.wf(),
            is_request(
                r,
                old(self)@.base,
                (SocketReq { typ: "socket", id: r.id, pfam: "ax25", mode: "stream" }).fields(),
            ),
    {
        self.socket_mode("stream")
    }

    /// Allocates a datagram socket handle.
    pub fn socket_dgram(&mut self) -> (r: Request)
        requires
            old(self)@.base.wf(),
            old(self)@.base.issued < u64::MAX,
        ensures
            final(self)@ == old(self)@.after_request(),
            final(self)@.base.wf(),
            is_request(
                r,
                old(self)@.base,
                (SocketReq { typ: "socket", id: r.id, pfam: "ax25", mode: "custom" }).fields(),
            ),
    {
        self.socket_mode("custom")
    }

    fn socket_mode(&mut self, mode: &str) -> (r: Request)
        requires
            old(self)@.base.wf(),
            old(self)@.base.issued < u64::MAX,
        ensures
            final(self)@ == old(self)@.after_request(),
            final(self)@.base.wf(),
            is_request(
                r,
                old(self)@.base,
                (SocketReq { typ: "socket", id: r.id, pfam: "ax25", mode }).fields(),
            ),
    {
        let id: u64 = self.base.next_id();
        let req = SocketReq { typ: "socket", id, pfam: "ax25", mode };
        Request { id, bytes: req.to_json().unwrap() }
    }

    /// Binds a local callsign, and a port where one is given, to a handle.
    pub fn bind(&mut self, handle: u64, local: &str, port: Option<&str>) -> (r: Request)
        requires
            old(self)@.base.wf(),
            old(self)@.base.issued < u64::MAX,
        ensures
            final(self)@ == old(self)@.after_request(),
            final(self)@.base.wf(),
            is_request(
                r,
                old(self)@.base,
                (BindReq { typ: "bind", id: r.id, handle, local, port }).fields(),
            ),
    {
        self.base.bind(handle, local, port)
    }

    /// Starts to listen on a bound handle.
    pub fn listen(&mut self, handle: u64) -> (r: Request)
        requires
            old(self)@.base.wf(),
            old(self)@.base.issued < u64::MAX,
        ensures
            final(self)@ == old(self)@.after_request(),
            final(self)@.base.wf(),
            is_request(
                r,
                old(self)@.base,
                (ListenReq { typ: "listen", id: r.id, handle, flags: 0 }).fields(),
            ),
    {
        self.base.listen(handle)
    }

    /// One look of a caller that waits for a call on a listener: the next call,
    /// `Some(None)` where no more are to be waited for, or `None` to wait on. With a
    /// limit it gives up once that has passed since the wait began. Times are in
    /// nanoseconds.
    pub fn wait_accept(&mut self, listener: u64, limit: Option<u128>, elapsed: u128) -> (r: Option<
        Option<AcceptInfo>,
    >)
        ensures
            step_view(r) == old(self)@.accept_step(listener, time_is_up(limit, elapsed)),
            final(self)@ == (FullModel {
                accepts: dequeued(old(self)@.accepts, listener),
                ..old(self)@
            }),
    {
        match self.accepts.pop(listener) {
            Some(info) => Some(Some(info)),
            None => {
                if is_time_up(limit, elapsed) || self.base.is_closed() {
                    Some(None)
                } else {
                    None
                }
            },
        }
    }

    /// Takes the next call that waits on a listener, if any.
    pub fn try_accept(&mut self, listener: u64) -> (r: Option<AcceptInfo>)
        ensures
            accept_view(r) == next_call(old(self)@.accepts, listener),
            final(self)@ == (FullModel {
                accepts: dequeued(old(self)@.accepts, listener),
                ..old(self)@
            }),
    {
        self.accepts.pop(listener)
    }

    /// Takes in a push: queues a call, follows a connect, and says what the sink
    /// is to be told.
    pub fn dispatch_push(&mut self, frame: &Frame) -> (r: Option<Push>)
        ensures
            push_view(r) == push_of(frame@),
            final(self)@ == old(self)@.after_push(frame@),
    {
        let handle: u64 = match frame.handle() {
            Some(h) => h,
            None => {
                return None;
            },
        };
        let typ = frame.typ();
        if same_text(typ, "recv") {
            let data = payload(frame);
            if frame.is_dgram_recv() {
                let source = owned(frame.remote());
                let dest = owned(frame.local());
                Some(Push::Dgram { handle, source, dest, data })
            } else {
                Some(Push::Recv { handle, data })
            }
        } else if same_text(typ, "accept") {
            match frame.child() {
                Some(child) => {
                    let info = AcceptInfo {
                        child_handle: child,
                        remote: owned(frame.remote()),
                        local: owned(frame.local()),
                    };
                    self.accepts.push(handle, info);
                    Some(
                        Push::Accept {
                            listener: handle,
                            child,
                            remote: owned(frame.remote()),
                            local: owned(frame.local()),
                        },
                    )
                },
                None => None,
            }
        } else if same_text(typ, "status") {
            let flags: i64 = frame.status_flags();
            if flags & STATUS_CONNECTED != 0 {
                self.conns.mark_connected(handle);
            }
            Some(Push::Status { handle, flags })
        } else if same_text(typ, "close") {
            let code: i64 = frame.errcode();
            let errno: i32 = if code == 0 {
                ECONNREFUSED
            } else {
                errcode_to_errno(code)
            };
            self.conns.mark_failed(handle, errno);
            Some(Push::Close { handle })
        } else {
            None
        }
    }

    /// Takes in a received frame body: skipped where it is no JSON document, a
    /// reply where it carries the id of a waiting request, a push otherwise.
    pub fn on_frame(&mut self, bytes: &[u8]) -> (r: Received)
        requires
            old(self)@.base.wf(),
        ensures
            final(self)@.base.wf(),
            match json_document(bytes@) {
                None => r is Undecodable && final(self)@ == old(self)@,
                Some(m) => match old(self)@.base.answered_by(frame_of(m)) {
                    Some(id) => r matches Received::Reply(i, f) && i == id && f@ == frame_of(m)
                        && final(self)@ == old(self)@.without(id),
                    None => r matches Received::Pushed(p) && push_view(p) == push_of(frame_of(m))
                        && final(self)@ == old(self)@.after_push(frame_of(m)),
                },
            },
    {
        let frame = match Frame::parse(bytes) {
            Ok(f) => f,
            Err(_) => {
                return Received::Undecodable;
            },
        };
        match self.base.take_waiter(&frame) {
            Some(id) => Received::Reply(id, frame),
            None => Received::Pushed(self.dispatch_push(&frame)),
        }
    }

    /// The transport ended: no request waits any longer, and every pending
    /// connect has failed.
    pub fn on_end(&mut self)
        ensures
            final(self)@ == old(self)@.ended(),
            final(self)@.base.wf(),
    {
        self.base.on_end();
        self.conns.fail_all_pending(ECONNRESET);
    }
}

/// A connect completes only on a `status` push with the connected bit: no other
/// frame makes a handle connected.
pub proof fn law_only_status_connects(c: FullModel, f: FrameModel, handle: u64)
    requires
        connect_outcome(c.conns, handle) != Some(Ok::<(), i32>(())),
        connect_outcome(c.after_push(f).conns, handle) == Some(Ok::<(), i32>(())),
    ensures
        f.typ() == "status"@,
        unsigned_of(f.handle) == Some(handle),
        f.status_flags() & STATUS_CONNECTED != 0,
{
    reveal_strlit("status");
    reveal_strlit("recv");
    reveal_strlit("accept");
    reveal_strlit("close");
}

/// The client once a run of frames has been taken in as pushes.
pub open spec fn after_pushes(c: FullModel, fs: Seq<FrameModel>) -> FullModel
    decreases fs.len(),
{
    if fs.len() == 0 {
        c
    } else {
        after_pushes(c, fs.drop_last()).after_push(fs.last())
    }
}

/// A frame that reports a link as up.
pub open spec fn reports_link(f: FrameModel, handle: u64) -> bool {
    f.typ() == "status"@ && unsigned_of(f.handle) == Some(handle) && f.status_flags()
        & STATUS_CONNECTED != 0
}

/// Whatever pushes arrive, in whatever order: a connect that was not complete is
/// complete behind them only if one of them reported its link as up.
pub proof fn law_connected_means_reported(c: FullModel, fs: Seq<FrameModel>, handle: u64)
    requires
        connect_outcome(c.conns, handle) != Some(Ok::<(), i32>(())),
        connect_outcome(after_pushes(c, fs).conns, handle) == Some(Ok::<(), i32>(())),
    ensures
        exists|i: int| 0 <= i < fs.len() && reports_link(#[trigger] fs[i], handle),
    decreases fs.len(),
{
    if fs.len() > 0 {
        let before = after_pushes(c, fs.drop_last());
        if connect_outcome(before.conns, handle) == Some(Ok::<(), i32>(())) {
            law_connected_means_reported(c, fs.drop_last(), handle);
            let i = choose|i: int|
                0 <= i < fs.drop_last().len() && reports_link(
                    #[trigger] fs.drop_last()[i],
                    handle,
                );
            assert(reports_link(fs[i], handle));
        } else {
            law_only_status_connects(before, fs.last(), handle);
            assert(reports_link(fs[fs.len() - 1], handle));
        }
    }
}

/// The reply to `open` alone leaves a connect undecided, and never overrules a
/// push that came first.
pub proof fn law_open_reply_decides_nothing(m: Phases, handle: u64)
    ensures
        !m.contains_key(handle) ==> connect_outcome(armed(m, handle), handle) is None,
        m.contains_key(handle) ==> armed(m, handle) == m,
        armed(m, handle).contains_key(handle),
{
}

/// A connect that was decided stays decided: a later close of a connected handle
/// is an ordinary end of it, and a failure keeps its first reason.
pub proof fn law_close_keeps_what_was_decided(m: Phases, handle: u64, errno: i32)
    ensures
        m.contains_key(handle) && m[handle] == ConnPhase::Pending ==> connect_outcome(
            failed(m, handle, errno),
            handle,
        ) == Some(Err::<(), i32>(errno)),
        connect_outcome(m, handle) is Some ==> failed(m, handle, errno) == m,
{
}

/// The error of a failed connect is reported once, then 0.
pub proof fn law_connect_error_is_read_once(m: Phases, handle: u64)
    ensures
        pending_error(error_cleared(m, handle), handle) == 0,
{
}

/// When the transport goes away nobody is left waiting: every pending connect has
/// failed with `ECONNRESET`, and every wait for a connect or a call ends.
pub proof fn law_the_end_wakes_everyone(c: FullModel, handle: u64, timed_out: bool)
    ensures
        c.conns.contains_key(handle) && c.conns[handle] == ConnPhase::Pending
            ==> c.ended().connect_step(handle, timed_out) == Some(Err::<(), i32>(ECONNRESET)),
        connect_outcome(c.conns, handle) is Some ==> connect_outcome(c.ended().conns, handle)
            == connect_outcome(c.conns, handle),
        c.ended().connect_step(handle, timed_out) is Some,
        c.ended().accept_step(handle, timed_out) is Some,
{
}

/// A wait with a limit ends once the limit has passed, whatever pushes arrived in
/// between: on a connect that is still pending with `ETIMEDOUT`, while the transport
/// is up. Before that, and without a limit, such a wait goes on.
pub proof fn law_a_timeout_ends_a_wait(
    c: FullModel,
    fs: Seq<FrameModel>,
    handle: u64,
    limit: Option<u128>,
    elapsed: u128,
)
    ensures
        ({
            let now = after_pushes(c, fs);
            let up = time_is_up(limit, elapsed);
            &&& up ==> now.connect_step(handle, up) is Some && now.accept_step(handle, up) is Some
            &&& connect_outcome(now.conns, handle) is None && !now.base.closed
                ==> now.connect_step(handle, up) == (if up {
                Some(Err::<(), i32>(ETIMEDOUT))
            } else {
                None
            })
            &&& next_call(now.accepts, handle) is None && !now.base.closed ==> now.accept_step(
                handle,
                up,
            ) == (if up {
                Some(None::<AcceptModel>)
            } else {
                None
            })
        }),
{
}

/// Calls are accepted in the order in which they came, each once, and on the
/// listener they came in on.
pub proof fn law_calls_are_accepted_in_order(
    m: Queues,
    listener: u64,
    info: AcceptModel,
    other: u64,
)
    ensures
        queue_of(m, listener).len() == 0 ==> next_call(queued(m, listener, info), listener)
            == Some(info) && queue_of(
            dequeued(queued(m, listener, info), listener),
            listener,
        ).len() == 0,
        queue_of(m, listener).len() > 0 ==> next_call(queued(m, listener, info), listener)
            == next_call(m, listener) && queue_of(
            dequeued(queued(m, listener, info), listener),
            listener,
        ) == queue_of(dequeued(m, listener), listener).push(info),
        other != listener ==> queue_of(queued(m, listener, info), other) == queue_of(m, other)
            && queue_of(dequeued(m, listener), other) == queue_of(m, other),
{
    if queue_of(m, listener).len() > 0 {
        assert(queue_of(m, listener).push(info).drop_first() =~= queue_of(
            m,
            listener,
        ).drop_first().push(info));
    }
}

/// Closing a handle drops what was known of it and nothing else.
pub proof fn law_close_forgets_one_handle(c: FullModel, handle: u64, other: u64)
    ensures
        connect_outcome(c.forgotten(handle).conns, handle) is None,
        next_call(c.forgotten(handle).accepts, handle) is None,
        other != handle ==> connect_outcome(c.forgotten(handle).conns, other) == connect_outcome(
            c.conns,
            other,
        ) && queue_of(c.forgotten(handle).accepts, other) == queue_of(c.accepts, other),
{
}

} // verus!
