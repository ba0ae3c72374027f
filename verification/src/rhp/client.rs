//! The client's side of the protocol, without its transport: which requests are
//! made, which replies answer them, and what an async push means.
//!
//! The transport writes the bytes of each `Request`, hands each received frame to
//! `RhpClient::on_frame`, and reports what became of a request as an `Outcome`.

use std::collections::{HashMap, HashSet};

use vstd::prelude::*;
use vstd::slice::slice_subrange;
use vstd::utf8::encode_utf8;

use super::codec::{from_wire_string, to_wire_string, wire_bytes, wire_string};
use super::errors::{errcode_to_errno, errno_of};
use super::framing::{frame_bytes, write_frame, FrameError, MAX_FRAME};
use super::json::{json_document, object_text, Fields};
use super::messages::{
    frame_of, string_view, text_of, unsigned_of, AuthReq, BindReq, CloseReq, Frame, FrameModel,
    ListenReq, OpenReq, SendReq, SocketReq, MAX_SEND_CHUNK, OPEN_FLAG_ACTIVE, OPEN_FLAG_PASSIVE,
};
use crate::errno::{EIO, ETIMEDOUT};
use crate::text::{
    push_signed, same_ignoring_case, same_text, same_text_ignoring_case, signed_decimal,
};

verus! {

broadcast use vstd::std_specs::hash::group_hash_axioms;

/// The address of the engine where none is configured.
pub fn default_addr(configured: Option<String>) -> (r: String)
    ensures
        r@ == (match configured {
            Some(addr) => addr@,
            None => "127.0.0.1:9000"@,
        }),
{
    match configured {
        Some(addr) => addr,
        None => "127.0.0.1:9000".to_owned(),
    }
}

/// How long a request waits for its reply, unless another limit is set, in
/// nanoseconds: half a minute.
pub const REPLY_LIMIT: u128 = 30_000_000_000;

/// Callbacks for asynchronous pushes. Each does nothing unless it is implemented.
pub trait RhpEventSink: Sized {
    /// Inbound data on a connected handle.
    fn on_recv(&mut self, _handle: u64, _data: &[u8])
        default_ensures
            *final(self) == *old(self),
    {
    }

    /// An inbound datagram. `data` starts with the protocol id.
    fn on_dgram(
        &mut self,
        _handle: u64,
        _source: Option<String>,
        _dest: Option<String>,
        _data: &[u8],
    )
        default_ensures
            *final(self) == *old(self),
    {
    }

    /// A listener accepted an inbound connection; `child` is its handle.
    fn on_accept(
        &mut self,
        _listener: u64,
        _child: u64,
        _remote: Option<String>,
        _local: Option<String>,
    )
        default_ensures
            *final(self) == *old(self),
    {
    }

    /// The link state of a handle changed; `flags` is the bitfield of its status
    /// (`STATUS_CONNECTED` and others).
    fn on_status(&mut self, _handle: u64, _flags: i64)
        default_ensures
            *final(self) == *old(self),
    {
    }

    /// The server closed a handle.
    fn on_close(&mut self, _handle: u64)
        default_ensures
            *final(self) == *old(self),
    {
    }

    /// The transport went away; all handles are dead.
    fn on_disconnect(&mut self)
        default_ensures
            *final(self) == *old(self),
    {
    }
}

/// A sink that ignores everything.
pub struct NullSink;

impl RhpEventSink for NullSink {

}

/// What went wrong with a request.
#[derive(Debug)]
pub enum RhpError {
    /// The transport failed; its message.
    Io(String),
    /// No reply arrived in time.
    Timeout,
    /// The server answered with an error code.
    Server { errcode: i64, errtext: Option<String> },
}

/// The mathematical value of an `RhpError`.
#[verifier::ext_equal]
pub enum RhpErrorModel {
    Io(Seq<char>),
    Timeout,
    Server { errcode: i64, errtext: Option<Seq<char>> },
}

impl View for RhpError {
    type V = RhpErrorModel;

    open spec fn view(&self) -> RhpErrorModel {
        match *self {
            RhpError::Io(s) => RhpErrorModel::Io(s@),
            RhpError::Timeout => RhpErrorModel::Timeout,
            RhpError::Server { errcode, errtext } => RhpErrorModel::Server {
                errcode,
                errtext: string_view(errtext),
            },
        }
    }
}

impl RhpErrorModel {
    /// The errno for a failure.
    pub open spec fn errno(self) -> i32 {
        match self {
            RhpErrorModel::Io(_) => EIO,
            RhpErrorModel::Timeout => ETIMEDOUT,
            RhpErrorModel::Server { errcode, .. } => errno_of(errcode as int),
        }
    }

    /// The failure as text.
    pub open spec fn message(self) -> Seq<char> {
        match self {
            RhpErrorModel::Io(s) => "rhp transport error: "@ + s,
            RhpErrorModel::Timeout => "rhp request timed out"@,
            RhpErrorModel::Server { errcode, errtext } => "rhp server error "@ + signed_decimal(
                errcode as int,
            ) + " ("@ + (match errtext {
                Some(t) => t,
                None => "?"@,
            }) + ")"@,
        }
    }
}

impl RhpError {
    /// The errno for this failure.
    pub fn to_errno(&self) -> (r: i32)
        ensures
            r == self@.errno(),
    {
        match self {
            RhpError::Io(_) => EIO,
            RhpError::Timeout => ETIMEDOUT,
            RhpError::Server { errcode, .. } => errcode_to_errno(*errcode),
        }
    }

    /// The failure as text.
    pub fn message(&self) -> (r: String)
        ensures
            r@ == self@.message(),
    {
        match self {
            RhpError::Io(e) => {
                let mut s = "rhp transport error: ".to_owned();
                s.append(e.as_str());
                s
            },
            RhpError::Timeout => "rhp request timed out".to_owned(),
            RhpError::Server { errcode, errtext } => {
                let mut s = "rhp server error ".to_owned();
                push_signed(&mut s, *errcode);
                s.append(" (");
                match errtext {
                    Some(t) => s.append(t.as_str()),
                    None => s.append("?"),
                }
                s.append(")");
                s
            },
        }
    }
}

/// What a successful `open` returns.
#[derive(Debug, Clone)]
pub struct OpenResult {
    pub handle: u64,
    pub errcode: i64,
    pub errtext: Option<String>,
}

/// A request: its id, and the frame body to send.
#[derive(Debug)]
pub struct Request {
    pub id: u64,
    pub bytes: Vec<u8>,
}

impl Request {
    /// The request as it goes over the wire, with its length prefix.
    pub fn framed(&self) -> (r: Result<Vec<u8>, FrameError>)
        ensures
            match r {
                Ok(b) => self.bytes@.len() <= MAX_FRAME && b@ == frame_bytes(self.bytes@),
                Err(e) => self.bytes@.len() > MAX_FRAME && e == FrameError::TooLarge(
                    self.bytes@.len() as usize,
                ),
            },
    {
        let mut out: Vec<u8> = Vec::new();
        match write_frame(&mut out, self.bytes.as_slice()) {
            Ok(()) => {
                assert(out@ =~= frame_bytes(self.bytes@));
                Ok(out)
            },
            Err(e) => Err(e),
        }
    }
}

/// What became of a request.
#[derive(Debug)]
pub enum Outcome {
    /// The reply that carried its id.
    Reply(Frame),
    /// No reply arrived in time.
    Timeout,
    /// The transport closed while it was in flight.
    Disconnected,
    /// It could not be written; why.
    WriteFailed(String),
}

/// The reply to a request, or why there is none.
pub open spec fn answer(outcome: Outcome) -> Result<FrameModel, RhpErrorModel> {
    match outcome {
        Outcome::Reply(f) => Ok(f@),
        Outcome::Timeout => Err(RhpErrorModel::Timeout),
        Outcome::Disconnected => Err(RhpErrorModel::Io("rhp connection closed"@)),
        Outcome::WriteFailed(why) => Err(RhpErrorModel::Io(why@)),
    }
}

/// A reply counts as success if its error code is 0, or if its error text is
/// "Ok" in any case: some engines put the handle into the code.
pub open spec fn accepted(f: FrameModel) -> bool {
    f.errcode() == 0 || (f.errtext() matches Some(t) && same_ignoring_case(t, "ok"@))
}

/// The error that a refusing reply stands for.
pub open spec fn refusal(f: FrameModel) -> RhpErrorModel {
    RhpErrorModel::Server { errcode: f.errcode(), errtext: f.errtext() }
}

/// What an accepting reply without the handle that is owed stands for.
pub open spec fn no_handle(text: Seq<char>) -> RhpErrorModel {
    RhpErrorModel::Server { errcode: 1, errtext: Some(text) }
}

/// Whether a request without a result succeeded.
pub open spec fn plain_result(outcome: Outcome) -> Result<(), RhpErrorModel> {
    match answer(outcome) {
        Ok(f) => if accepted(f) {
            Ok(())
        } else {
            Err(refusal(f))
        },
        Err(e) => Err(e),
    }
}

/// The handle that a reply brings, with `missing` as the complaint where it
/// brings none.
pub open spec fn handle_result(outcome: Outcome, missing: Seq<char>) -> Result<
    u64,
    RhpErrorModel,
> {
    match plain_result(outcome) {
        Ok(_) => match unsigned_of(answer(outcome)->Ok_0.handle) {
            Some(h) => Ok(h),
            None => Err(no_handle(missing)),
        },
        Err(e) => Err(e),
    }
}

/// The value of a result whose error is an `RhpError`.
pub open spec fn result_view<T>(r: Result<T, RhpError>) -> Result<T, RhpErrorModel> {
    match r {
        Ok(v) => Ok(v),
        Err(e) => Err(e@),
    }
}

/// Copies an optional text.
pub(crate) fn owned(s: Option<&str>) -> (r: Option<String>)
    ensures
        string_view(r) == super::messages::text_view(s),
{
    match s {
        Some(t) => Some(t.to_owned()),
        None => None,
    }
}

/// Whether a reply reports success.
pub fn check_ok(frame: &Frame) -> (r: Result<(), RhpError>)
    ensures
        result_view(r) == (if accepted(frame@) {
            Ok(())
        } else {
            Err(refusal(frame@))
        }),
{
    let code: i64 = frame.errcode();
    let ok_text = match frame.errtext() {
        Some(t) => same_text_ignoring_case(t, "ok"),
        None => false,
    };
    if code != 0 && !ok_text {
        return Err(RhpError::Server { errcode: code, errtext: owned(frame.errtext()) });
    }
    Ok(())
}

/// An async push.
#[derive(Debug)]
pub enum Push {
    Recv { handle: u64, data: Vec<u8> },
    Dgram { handle: u64, source: Option<String>, dest: Option<String>, data: Vec<u8> },
    Accept { listener: u64, child: u64, remote: Option<String>, local: Option<String> },
    Status { handle: u64, flags: i64 },
    Close { handle: u64 },
}

/// The mathematical value of a `Push`.
#[verifier::ext_equal]
pub enum PushModel {
    Recv { handle: u64, data: Seq<u8> },
    Dgram { handle: u64, source: Option<Seq<char>>, dest: Option<Seq<char>>, data: Seq<u8> },
    Accept { listener: u64, child: u64, remote: Option<Seq<char>>, local: Option<Seq<char>> },
    Status { handle: u64, flags: i64 },
    Close { handle: u64 },
}

impl View for Push {
    type V = PushModel;

    open spec fn view(&self) -> PushModel {
        match *self {
            Push::Recv { handle, data } => PushModel::Recv { handle, data: data@ },
            Push::Dgram { handle, source, dest, data } => PushModel::Dgram {
                handle,
                source: string_view(source),
                dest: string_view(dest),
                data: data@,
            },
            Push::Accept { listener, child, remote, local } => PushModel::Accept {
                listener,
                child,
                remote: string_view(remote),
                local: string_view(local),
            },
            Push::Status { handle, flags } => PushModel::Status { handle, flags },
            Push::Close { handle } => PushModel::Close { handle },
        }
    }
}

/// The value of an optional push.
pub open spec fn push_view(p: Option<Push>) -> Option<PushModel> {
    match p {
        Some(x) => Some(x@),
        None => None,
    }
}

/// Hands a push to the method of a sink that is meant for it, once, with what the
/// push carries, and to no other.
pub fn deliver<S: RhpEventSink>(sink: &mut S, push: Push)
    ensures
        match push {
            Push::Recv { handle, data } => exists|m: &mut S, d: &[u8]| #[trigger]
                call_ensures(S::on_recv, (m, handle, d), ()) && d@ == data@ && *m == *old(sink)
                    && *final(m) == *final(sink),
            Push::Dgram { handle, source, dest, data } => exists|m: &mut S, d: &[u8]| #[trigger]
                call_ensures(S::on_dgram, (m, handle, source, dest, d), ()) && d@ == data@ && *m
                    == *old(sink) && *final(m) == *final(sink),
            Push::Accept { listener, child, remote, local } => exists|m: &mut S| #[trigger]
                call_ensures(S::on_accept, (m, listener, child, remote, local), ()) && *m
                    == *old(sink) && *final(m) == *final(sink),
            Push::Status { handle, flags } => exists|m: &mut S| #[trigger]
                call_ensures(S::on_status, (m, handle, flags), ()) && *m == *old(sink)
                    && *final(m) == *final(sink),
            Push::Close { handle } => exists|m: &mut S| #[trigger]
                call_ensures(S::on_close, (m, handle), ()) && *m == *old(sink) && *final(m)
                    == *final(sink),
        },
{
    match push {
        Push::Recv { handle, data } => sink.on_recv(handle, data.as_slice()),
        Push::Dgram { handle, source, dest, data } => {
            sink.on_dgram(handle, source, dest, data.as_slice())
        },
        Push::Accept { listener, child, remote, local } => {
            sink.on_accept(listener, child, remote, local)
        },
        Push::Status { handle, flags } => sink.on_status(handle, flags),
        Push::Close { handle } => sink.on_close(handle),
    }
}

/// The bytes that a frame carries; none where it has no data.
pub open spec fn payload_of(f: FrameModel) -> Seq<u8> {
    match text_of(f.data) {
        Some(s) => wire_bytes(s),
        None => Seq::empty(),
    }
}

/// What a frame means as a push; `None` where it is to be ignored.
pub open spec fn push_of(f: FrameModel) -> Option<PushModel> {
    match unsigned_of(f.handle) {
        None => None,
        Some(handle) => if f.typ() == "recv"@ {
            Some(PushModel::Recv { handle, data: payload_of(f) })
        } else if f.typ() == "accept"@ {
            match unsigned_of(f.child) {
                Some(child) => Some(
                    PushModel::Accept {
                        listener: handle,
                        child,
                        remote: text_of(f.remote),
                        local: text_of(f.local),
                    },
                ),
                None => None,
            }
        } else if f.typ() == "status"@ {
            Some(PushModel::Status { handle, flags: f.status_flags() })
        } else if f.typ() == "close"@ {
            Some(PushModel::Close { handle })
        } else {
            None
        },
    }
}

/// The bytes that a frame carries.
pub(crate) fn payload(frame: &Frame) -> (r: Vec<u8>)
    ensures
        r@ == payload_of(frame@),
{
    match frame.data_str() {
        Some(s) => from_wire_string(s),
        None => Vec::new(),
    }
}

/// Reads a frame as a push.
pub fn dispatch_push(frame: &Frame) -> (r: Option<Push>)
    ensures
        push_view(r) == push_of(frame@),
{
    let handle: u64 = match frame.handle() {
        Some(h) => h,
        None => {
            return None;
        },
    };
    let typ = frame.typ();
    if same_text(typ, "recv") {
        Some(Push::Recv { handle, data: payload(frame) })
    } else if same_text(typ, "accept") {
        match frame.child() {
            Some(child) => Some(
                Push::Accept {
                    listener: handle,
                    child,
                    remote: owned(frame.remote()),
                    local: owned(frame.local()),
                },
            ),
            None => None,
        }
    } else if same_text(typ, "status") {
        Some(Push::Status { handle, flags: frame.status_flags() })
    } else if same_text(typ, "close") {
        Some(Push::Close { handle })
    } else {
        None
    }
}

/// How many chunks a run of data is sent in: at least one, also for no data.
pub open spec fn chunk_count(len: nat) -> nat {
    if len == 0 {
        1
    } else {
        ((len + MAX_SEND_CHUNK - 1) / MAX_SEND_CHUNK as int) as nat
    }
}

/// The i-th chunk of a run of data.
pub open spec fn chunk(data: Seq<u8>, i: int) -> Seq<u8> {
    data.subrange(
        i * MAX_SEND_CHUNK,
        if (i + 1) * MAX_SEND_CHUNK <= data.len() {
            (i + 1) * MAX_SEND_CHUNK
        } else {
            data.len() as int
        },
    )
}

/// The chunks of a run of data, in order.
pub open spec fn chunks(data: Seq<u8>) -> Seq<Seq<u8>> {
    Seq::new(chunk_count(data.len()), |i: int| chunk(data, i))
}

/// The concatenation of the first chunks.
pub open spec fn joined(chunks: Seq<Seq<u8>>, n: nat) -> Seq<u8>
    decreases n,
{
    if n == 0 {
        Seq::empty()
    } else {
        joined(chunks, (n - 1) as nat) + chunks[n - 1]
    }
}

proof fn lemma_joined(data: Seq<u8>, n: nat)
    requires
        n <= chunk_count(data.len()),
    ensures
        joined(chunks(data), n) == data.take(
            if n * MAX_SEND_CHUNK <= data.len() {
                (n * MAX_SEND_CHUNK) as int
            } else {
                data.len() as int
            },
        ),
    decreases n,
{
    if n > 0 {
        lemma_joined(data, (n - 1) as nat);
        let c = chunks(data)[n - 1];
        assert(c == chunk(data, n - 1));
        assert(joined(chunks(data), n) =~= data.take(
            if n * MAX_SEND_CHUNK <= data.len() {
                (n * MAX_SEND_CHUNK) as int
            } else {
                data.len() as int
            },
        ));
    } else {
        assert(joined(chunks(data), n) =~= data.take(0));
    }
}

/// Chunking loses nothing and reorders nothing: the chunks, one after the other,
/// are the data. Each is within the limit, and none is empty but that of no data.
pub proof fn law_chunks_are_the_data(data: Seq<u8>)
    ensures
        joined(chunks(data), chunks(data).len()) == data,
        forall|i: int|
            0 <= i < chunks(data).len() ==> (#[trigger] chunks(data)[i]).len() <= MAX_SEND_CHUNK
                && (data.len() > 0 ==> chunks(data)[i].len() > 0),
{
    lemma_joined(data, chunk_count(data.len()));
    assert(data.take(data.len() as int) =~= data);
}

/// What a received frame body turned out to be.
#[derive(Debug)]
pub enum Received {
    /// No JSON document; skipped.
    Undecodable,
    /// The reply to a request that is waiting for it.
    Reply(u64, Frame),
    /// Not a reply to any waiting request: a push, or something to ignore.
    Pushed(Option<Push>),
}

/// The replies that have come and have not been picked up, by the id of the request.
pub struct Replies {
    map: HashMap<u64, Frame>,
}

impl View for Replies {
    type V = Map<u64, FrameModel>;

    closed spec fn view(&self) -> Map<u64, FrameModel> {
        self.map@.map_values(|f: Frame| f@)
    }
}

impl Replies {
    pub fn new() -> (r: Replies)
        ensures
            r@ == Map::<u64, FrameModel>::empty(),
    {
        let r = Replies { map: HashMap::new() };
        assert(r@ =~= Map::empty());
        r
    }

    /// The reply to a request has come.
    pub fn put(&mut self, id: u64, frame: Frame)
        ensures
            final(self)@ == old(self)@.insert(id, frame@),
    {
        self.map.insert(id, frame);
        assert(self@ =~= old(self)@.insert(id, frame@));
    }

    /// Picks up the reply to a request, if it has come.
    pub fn take(&mut self, id: u64) -> (r: Option<Frame>)
        ensures
            match r {
                Some(f) => old(self)@.contains_key(id) && f@ == old(self)@[id],
                None => !old(self)@.contains_key(id),
            },
            final(self)@ == old(self)@.remove(id),
    {
        let r = self.map.remove(&id);
        assert(self@ =~= old(self)@.remove(id));
        r
    }
}

/// What became of a request, as one look at it tells; `None` where it is to be
/// waited for on. A reply that has come counts. Where none has come and none is
/// waited for any longer, the transport has closed. Otherwise the request is given
/// up once the limit has passed since it was sent.
pub open spec fn is_reply_step(
    waiting: bool,
    reply: Option<Frame>,
    limit: u128,
    elapsed: u128,
    r: Option<Outcome>,
) -> bool {
    match reply {
        Some(f) => r matches Some(Outcome::Reply(g)) && g@ == f@,
        None => if !waiting {
            r matches Some(Outcome::Disconnected)
        } else if limit <= elapsed {
            r matches Some(Outcome::Timeout)
        } else {
            r is None
        },
    }
}

/// Ids and waiting requests of one connection.
pub struct RhpClient {
    issued: u64,
    pending: HashSet<u64>,
    closed: bool,
}

/// The mathematical value of an `RhpClient`.
#[verifier::ext_equal]
pub struct ClientModel {
    /// The last id that was given out; 0 at first.
    pub issued: nat,
    /// The ids of the requests that wait for a reply.
    pub waiting: Set<u64>,
    /// Whether the transport has closed.
    pub closed: bool,
}

impl View for RhpClient {
    type V = ClientModel;

    closed spec fn view(&self) -> ClientModel {
        ClientModel { issued: self.issued as nat, waiting: self.pending@, closed: self.closed }
    }
}

impl ClientModel {
    /// Only ids that were given out are waited for.
    pub open spec fn wf(self) -> bool {
        forall|id: u64| #[trigger] self.waiting.contains(id) ==> 1 <= id <= self.issued
    }

    /// The client once it has made one more request.
    pub open spec fn after_request(self) -> ClientModel {
        ClientModel {
            issued: self.issued + 1,
            waiting: self.waiting.insert((self.issued + 1) as u64),
            closed: self.closed,
        }
    }

    /// The client once it waits no longer for an id.
    pub open spec fn without(self, id: u64) -> ClientModel {
        ClientModel { issued: self.issued, waiting: self.waiting.remove(id), closed: self.closed }
    }

    /// The waiting request that a frame answers.
    pub open spec fn answered_by(self, f: FrameModel) -> Option<u64> {
        match unsigned_of(f.id) {
            Some(id) => if self.waiting.contains(id) {
                Some(id)
            } else {
                None
            },
            None => None,
        }
    }

    /// The client once the transport has ended.
    pub open spec fn ended(self) -> ClientModel {
        ClientModel { issued: self.issued, waiting: Set::empty(), closed: true }
    }
}

/// A request with the next id, whose body is the object with the given members.
pub open spec fn is_request(r: Request, before: ClientModel, fields: Fields) -> bool {
    &&& r.id == before.issued + 1
    &&& r.bytes@ == encode_utf8(object_text(fields))
}

impl RhpClient {
    /// A client that has made no request yet.
    pub fn new() -> (r: RhpClient)
        ensures
            r@.wf(),
            r@ == (ClientModel { issued: 0, waiting: Set::empty(), closed: false }),
    {
        let r = RhpClient { issued: 0, pending: HashSet::new(), closed: false };
        assert(r@.waiting =~= Set::empty());
        r
    }

    /// True once the transport has closed.
    pub fn is_closed(&self) -> (r: bool)
        ensures
            r == self@.closed,
    {
        self.closed
    }

    /// Whether another request can be made: ids are not used twice, so there is
    /// an end to them.
    pub fn can_request(&self) -> (r: bool)
        ensures
            r == (self@.issued < u64::MAX),
    {
        self.issued < u64::MAX
    }

    /// Whether a request still waits for its reply.
    pub fn is_waiting(&self, id: u64) -> (r: bool)
        ensures
            r == self@.waiting.contains(id),
    {
        self.pending.contains(&id)
    }

    /// One look at a request that was sent: what became of it, or `None` to wait on.
    /// `reply` is the reply to it, if that has come; times are in nanoseconds.
    pub fn reply_step(&self, id: u64, reply: Option<Frame>, limit: u128, elapsed: u128) -> (r:
        Option<Outcome>)
        ensures
            is_reply_step(self@.waiting.contains(id), reply, limit, elapsed, r),
    {
        match reply {
            Some(frame) => Some(Outcome::Reply(frame)),
            None => {
                if !self.is_waiting(id) {
                    Some(Outcome::Disconnected)
                } else if limit <= elapsed {
                    Some(Outcome::Timeout)
                } else {
                    None
                }
            },
        }
    }

    /// Gives out the next id, and waits for the reply to it.
    pub(crate) fn next_id(&mut self) -> (r: u64)
        requires
            old(self)@.wf(),
            old(self)@.issued < u64::MAX,
        ensures
            r == old(self)@.issued + 1,
            final(self)@ == old(self)@.after_request(),
            final(self)@.wf(),
    {
        self.issued = self.issued + 1;
        let id: u64 = self.issued;
        self.pending.insert(id);
        assert forall|i: u64| #[trigger] self@.waiting.contains(i) implies 1 <= i
            <= self@.issued by {
            assert(i == id || old(self)@.waiting.contains(i));
        }
        id
    }

    /// Settles a request: nothing waits for its id any longer.
    fn request(&mut self, id: u64, outcome: Outcome) -> (r: Result<Frame, RhpError>)
        requires
            old(self)@.wf(),
        ensures
            final(self)@ == old(self)@.without(id),
            final(self)@.wf(),
            match r {
                Ok(f) => answer(outcome) == Ok::<FrameModel, RhpErrorModel>(f@),
                Err(e) => answer(outcome) == Err::<FrameModel, RhpErrorModel>(e@),
            },
    {
        self.pending.remove(&id);
        assert forall|i: u64| #[trigger] self@.waiting.contains(i) implies 1 <= i
            <= self@.issued by {
            assert(old(self)@.waiting.contains(i));
        }
        match outcome {
            Outcome::Reply(frame) => Ok(frame),
            Outcome::Timeout => Err(RhpError::Timeout),
            Outcome::Disconnected => Err(RhpError::Io("rhp connection closed".to_owned())),
            Outcome::WriteFailed(why) => Err(RhpError::Io(why)),
        }
    }

    /// Settles a request that returns nothing.
    pub fn finish(&mut self, id: u64, outcome: Outcome) -> (r: Result<(), RhpError>)
        requires
            old(self)@.wf(),
        ensures
            final(self)@ == old(self)@.without(id),
            final(self)@.wf(),
            result_view(r) == plain_result(outcome),
    {
        match self.request(id, outcome) {
            Ok(reply) => check_ok(&reply),
            Err(e) => Err(e),
        }
    }

    /// Settles an `open`.
    pub fn finish_open(&mut self, id: u64, outcome: Outcome) -> (r: Result<OpenResult, RhpError>)
        requires
            old(self)@.wf(),
        ensures
            final(self)@ == old(self)@.without(id),
            final(self)@.wf(),
            match r {
                Ok(o) => handle_result(outcome, "openReply missing handle"@) == Ok::<
                    u64,
                    RhpErrorModel,
                >(o.handle) && o.errcode == answer(outcome)->Ok_0.errcode() && string_view(
                    o.errtext,
                ) == answer(outcome)->Ok_0.errtext(),
                Err(e) => handle_result(outcome, "openReply missing handle"@) == Err::<
                    u64,
                    RhpErrorModel,
                >(e@),
            },
    {
        let reply = match self.request(id, outcome) {
            Ok(reply) => reply,
            Err(e) => {
                return Err(e);
            },
        };
        match check_ok(&reply) {
            Ok(()) => {},
            Err(e) => {
                return Err(e);
            },
        }
        match reply.handle() {
            Some(handle) => Ok(
                OpenResult { handle, errcode: reply.errcode(), errtext: owned(reply.errtext()) },
            ),
            None => Err(
                RhpError::Server {
                    errcode: 1,
                    errtext: Some("openReply missing handle".to_owned()),
                },
            ),
        }
    }

    /// Settles a `socket`.
    pub fn finish_socket(&mut self, id: u64, outcome: Outcome) -> (r: Result<u64, RhpError>)
        requires
            old(self)@.wf(),
        ensures
            final(self)@ == old(self)@.without(id),
            final(self)@.wf(),
            result_view(r) == handle_result(outcome, "socketReply missing handle"@),
    {
        let reply = match self.request(id, outcome) {
            Ok(reply) => reply,
            Err(e) => {
                return Err(e);
            },
        };
        match check_ok(&reply) {
            Ok(()) => {},
            Err(e) => {
                return Err(e);
            },
        }
        match reply.handle() {
            Some(handle) => Ok(handle),
            None => Err(
                RhpError::Server {
                    errcode: 1,
                    errtext: Some("socketReply missing handle".to_owned()),
                },
            ),
        }
    }

    /// Authenticates.
    pub fn auth(&mut self, user: &str, pass: &str) -> (r: Request)
        requires
            old(self)@.wf(),
            old(self)@.issued < u64::MAX,
        ensures
            final(self)@ == old(self)@.after_request(),
            final(self)@.wf(),
            is_request(r, old(self)@, (AuthReq { typ: "auth", id: r.id, user, pass }).fields()),
    {
        let id: u64 = self.next_id();
        let req = AuthReq { typ: "auth", id, user, pass };
        Request { id, bytes: req.to_json().unwrap() }
    }

    /// Authenticates where both a user and a password are configured; a loopback
    /// client does without.
    pub fn login(&mut self, user: Option<&str>, pass: Option<&str>) -> (r: Option<Request>)
        requires
            old(self)@.wf(),
            old(self)@.issued < u64::MAX,
        ensures
            final(self)@.wf(),
            match (user, pass) {
                (Some(u), Some(p)) => r is Some && final(self)@ == old(self)@.after_request()
                    && is_request(
                    r->Some_0,
                    old(self)@,
                    (AuthReq { typ: "auth", id: r->Some_0.id, user: u, pass: p }).fields(),
                ),
                _ => r is None && final(self)@ == old(self)@,
            },
    {
        match (user, pass) {
            (Some(u), Some(p)) => Some(self.auth(u, p)),
            _ => None,
        }
    }

    /// Opens a link: `open` with the active flag.
    pub fn open_connect(&mut self, local: &str, remote: &str) -> (r: Request)
        requires
            old(self)@.wf(),
            old(self)@.issued < u64::MAX,
        ensures
            final(self)@ == old(self)@.after_request(),
            final(self)@.wf(),
            is_request(
                r,
                old(self)@,
                open_request(r.id, local, Some(remote), OPEN_FLAG_ACTIVE).fields(),
            ),
    {
        self.open(local, Some(remote), OPEN_FLAG_ACTIVE)
    }

    /// Opens a listener: `open` without a remote address, with the passive flag.
    pub fn open_listen(&mut self, local: &str) -> (r: Request)
        requires
            old(self)@.wf(),
            old(self)@.issued < u64::MAX,
        ensures
            final(self)@ == old(self)@.after_request(),
            final(self)@.wf(),
            is_request(
                r,
                old(self)@,
                open_request(r.id, local, None, OPEN_FLAG_PASSIVE).fields(),
            ),
    {
        self.open(local, None, OPEN_FLAG_PASSIVE)
    }

    fn open(&mut self, local: &str, remote: Option<&str>, flags: u32) -> (r: Request)
        requires
            old(self)@.wf(),
            old(self)@.issued < u64::MAX,
        ensures
            final(self)@ == old(self)@.after_request(),
            final(self)@.wf(),
            is_request(r, old(self)@, open_request(r.id, local, remote, flags).fields()),
    {
        let id: u64 = self.next_id();
        let req = OpenReq {
            typ: "open",
            id,
            pfam: "ax25",
            mode: "stream",
            port: None,
            local,
            remote,
            flags,
        };
        Request { id, bytes: req.to_json().unwrap() }
    }

    /// Sends one chunk of data on a connected handle.
    pub fn send_chunk(&mut self, handle: u64, chunk: &[u8]) -> (r: Request)
        requires
            old(self)@.wf(),
            old(self)@.issued < u64::MAX,
        ensures
            final(self)@ == old(self)@.after_request(),
            final(self)@.wf(),
            is_request(r, old(self)@, send_fields(r.id, handle, chunk@)),
            chunk@.len() <= MAX_SEND_CHUNK ==> r.bytes@.len() <= MAX_FRAME,
    {
        let id: u64 = self.next_id();
        let wire = to_wire_string(chunk);
        let req = SendReq { typ: "send", id, handle, data: wire.as_str() };
        proof {
            assert(req.fields() =~= send_fields(id, handle, chunk@));
            if chunk@.len() <= MAX_SEND_CHUNK {
                super::messages::law_send_fits_a_frame(req, chunk@);
            }
        }
        Request { id, bytes: req.to_json().unwrap() }
    }

    /// Sends data on a connected handle, chunk by chunk: the request for the next
    /// chunk, behind `sent` ones that were accepted; `None` once all were.
    pub fn send(&mut self, handle: u64, data: &[u8], sent: usize) -> (r: Option<Request>)
        requires
            old(self)@.wf(),
            old(self)@.issued < u64::MAX,
        ensures
            final(self)@.wf(),
            if sent < chunks(data@).len() {
                &&& r is Some
                &&& is_request(
                    r->Some_0,
                    old(self)@,
                    send_fields(r->Some_0.id, handle, chunks(data@)[sent as int]),
                )
                &&& r->Some_0.bytes@.len() <= MAX_FRAME
                &&& final(self)@ == old(self)@.after_request()
            } else {
                r is None && final(self)@ == old(self)@
            },
    {
        let count: usize = if data.len() == 0 {
            1
        } else {
            (data.len() - 1) / MAX_SEND_CHUNK + 1
        };
        if sent >= count {
            return None;
        }
        let start: usize = sent * MAX_SEND_CHUNK;
        let end: usize = if data.len() - start <= MAX_SEND_CHUNK {
            data.len()
        } else {
            start + MAX_SEND_CHUNK
        };
        let piece = slice_subrange(data, start, end);
        assert(piece@ =~= chunks(data@)[sent as int]);
        Some(self.send_chunk(handle, piece))
    }

    /// Closes a handle.
    pub fn close(&mut self, handle: u64) -> (r: Request)
        requires
            old(self)@.wf(),
            old(self)@.issued < u64::MAX,
        ensures
            final(self)@ == old(self)@.after_request(),
            final(self)@.wf(),
            is_request(r, old(self)@, (CloseReq { typ: "close", id: r.id, handle }).fields()),
    {
        let id: u64 = self.next_id();
        let req = CloseReq { typ: "close", id, handle };
        Request { id, bytes: req.to_json().unwrap() }
    }

    /// Allocates a stream socket handle.
    pub fn socket(&mut self) -> (r: Request)
        requires
            old(self)@.wf(),
            old(self)@.issued < u64::MAX,
        ensures
            final(self)@ == old(self)@.after_request(),
            final(self)@.wf(),
            is_request(
                r,
                old(self)@,
                (SocketReq { typ: "socket", id: r.id, pfam: "ax25", mode: "stream" }).fields(),
            ),
    {
        let id: u64 = self.next_id();
        let req = SocketReq { typ: "socket", id, pfam: "ax25", mode: "stream" };
        Request { id, bytes: req.to_json().unwrap() }
    }

    /// Binds a local callsign, and a port where one is given, to a handle.
    pub fn bind(&mut self, handle: u64, local: &str, port: Option<&str>) -> (r: Request)
        requires
            old(self)@.wf(),
            old(self)@.issued < u64::MAX,
        ensures
            final(self)@ == old(self)@.after_request(),
            final(self)@.wf(),
            is_request(
                r,
                old(self)@,
                (BindReq { typ: "bind", id: r.id, handle, local, port }).fields(),
            ),
    {
        let id: u64 = self.next_id();
        let req = BindReq { typ: "bind", id, handle, local, port };
        Request { id, bytes: req.to_json().unwrap() }
    }

    /// Starts to listen on a bound handle.
    pub fn listen(&mut self, handle: u64) -> (r: Request)
        requires
            old(self)@.wf(),
            old(self)@.issued < u64::MAX,
        ensures
            final(self)@ == old(self)@.after_request(),
            final(self)@.wf(),
            is_request(
                r,
                old(self)@,
                (ListenReq { typ: "listen", id: r.id, handle, flags: 0 }).fields(),
            ),
    {
        let id: u64 = self.next_id();
        let req = ListenReq { typ: "listen", id, handle, flags: 0 };
        Request { id, bytes: req.to_json().unwrap() }
    }

    /// Finds the request that a frame answers, and waits for it no longer.
    pub(crate) fn take_waiter(&mut self, frame: &Frame) -> (r: Option<u64>)
        requires
            old(self)@.wf(),
        ensures
            r == old(self)@.answered_by(frame@),
            final(self)@ == (match r {
                Some(id) => old(self)@.without(id),
                None => old(self)@,
            }),
            final(self)@.wf(),
    {
        match frame.id() {
            Some(id) => {
                if self.pending.remove(&id) {
                    Some(id)
                } else {
                    assert(self@.waiting =~= old(self)@.waiting);
                    None
                }
            },
            None => None,
        }
    }

    /// Takes in a received frame body. One that is no JSON document is skipped.
    /// One that carries the id of a waiting request is the reply to it. Any other
    /// is a push, also one with an id that nothing waits for.
    pub fn on_frame(&mut self, bytes: &[u8]) -> (r: Received)
        requires
            old(self)@.wf(),
        ensures
            final(self)@.wf(),
            match json_document(bytes@) {
                None => r is Undecodable && final(self)@ == old(self)@,
                Some(m) => match old(self)@.answered_by(frame_of(m)) {
                    Some(id) => r matches Received::Reply(i, f) && i == id && f@ == frame_of(m)
                        && final(self)@ == old(self)@.without(id),
                    None => r matches Received::Pushed(p) && push_view(p) == push_of(frame_of(m))
                        && final(self)@ == old(self)@,
                },
            },
    {
        let frame = match Frame::parse(bytes) {
            Ok(f) => f,
            Err(_) => {
                return Received::Undecodable;
            },
        };
        match self.take_waiter(&frame) {
            Some(id) => Received::Reply(id, frame),
            None => Received::Pushed(dispatch_push(&frame)),
        }
    }

    /// The transport ended: it is closed, and no request waits any longer.
    pub fn on_end(&mut self)
        ensures
            final(self)@ == old(self)@.ended(),
            final(self)@.wf(),
    {
        self.closed = true;
        self.pending.clear();
        assert(self@.waiting =~= Set::empty());
    }
}

/// The `open` request for given addresses and flags.
pub open spec fn open_request<'a>(
    id: u64,
    local: &'a str,
    remote: Option<&'a str>,
    flags: u32,
) -> OpenReq<'a> {
    OpenReq { typ: "open", id, pfam: "ax25", mode: "stream", port: None, local, remote, flags }
}

/// The members of the `send` request for a chunk of data.
pub open spec fn send_fields(id: u64, handle: u64, chunk: Seq<u8>) -> Fields {
    super::messages::text_field("type"@, "send"@) + super::messages::number_field("id"@, id)
        + super::messages::number_field("handle"@, handle) + super::messages::text_field(
        "data"@,
        wire_string(chunk),
    )
}

/// Ids are not zero, grow, and are never those of a request that still waits.
pub proof fn law_ids_are_fresh(before: ClientModel)
    requires
        before.wf(),
        before.issued < u64::MAX,
    ensures
        before.after_request().wf(),
        before.after_request().issued > before.issued,
        before.after_request().issued != 0,
        !before.waiting.contains((before.issued + 1) as u64),
        before.after_request().waiting.contains((before.issued + 1) as u64),
{
}

/// A reply reaches the request it answers and no other: a frame with the id of a
/// waiting request settles that one, once; the other requests go on waiting.
pub proof fn law_replies_are_correlated(c: ClientModel, f: FrameModel, other: u64)
    requires
        c.wf(),
        c.answered_by(f) is Some,
    ensures
        ({
            let id = c.answered_by(f)->Some_0;
            &&& unsigned_of(f.id) == Some(id)
            &&& c.without(id).answered_by(f) is None
            &&& other != id ==> c.without(id).waiting.contains(other) == c.waiting.contains(other)
        }),
{
}

/// Once the transport has ended, nothing is taken for a reply.
pub proof fn law_no_replies_after_the_end(c: ClientModel, f: FrameModel)
    ensures
        c.ended().closed,
        c.ended().answered_by(f) is None,
{
}

/// Every request comes to an end: with its reply where that has come, whenever one
/// looks; with an error of the transport where that has ended without it; and with a
/// timeout, but not before its limit has passed, where nothing else happens.
pub proof fn law_every_request_ends(
    c: ClientModel,
    id: u64,
    reply: Option<Frame>,
    limit: u128,
    elapsed: u128,
    r: Option<Outcome>,
)
    ensures
        is_reply_step(c.waiting.contains(id), reply, limit, elapsed, r) ==> {
            &&& reply matches Some(f) ==> r is Some && answer(r->Some_0) == Ok::<
                FrameModel,
                RhpErrorModel,
            >(f@)
            &&& reply is None && c.waiting.contains(id) ==> (r is Some <==> limit <= elapsed) && (
            r is Some ==> answer(r->Some_0) == Err::<FrameModel, RhpErrorModel>(
                RhpErrorModel::Timeout,
            ))
            &&& limit <= elapsed ==> r is Some
        },
        is_reply_step(c.ended().waiting.contains(id), None, limit, elapsed, r) ==> r is Some
            && answer(r->Some_0) == Err::<FrameModel, RhpErrorModel>(
            RhpErrorModel::Io("rhp connection closed"@),
        ),
{
}

/// Bytes that were received on a handle, and whether it was closed.
pub struct HandleBuf {
    data: Vec<u8>,
    eof: bool,
}

/// A sink that buffers received bytes for each handle and records the end of it,
/// so that a caller can poll for data.
pub struct BufferingSink {
    inner: HashMap<u64, HandleBuf>,
}

impl BufferingSink {
    /// The bytes that are buffered for a handle.
    pub closed spec fn buffered(self, handle: u64) -> Seq<u8> {
        if self.inner@.contains_key(handle) {
            self.inner@[handle].data@
        } else {
            Seq::empty()
        }
    }

    /// Whether a handle was closed.
    pub closed spec fn ended(self, handle: u64) -> bool {
        self.inner@.contains_key(handle) && self.inner@[handle].eof
    }

    pub fn new() -> (r: BufferingSink)
        ensures
            forall|h: u64| #[trigger] r.buffered(h) == Seq::<u8>::empty(),
            forall|h: u64| !#[trigger] r.ended(h),
    {
        BufferingSink { inner: HashMap::new() }
    }

    /// Drains the buffered bytes of a handle.
    pub fn take(&mut self, handle: u64) -> (r: Vec<u8>)
        ensures
            r@ == old(self).buffered(handle),
            final(self).buffered(handle) == Seq::<u8>::empty(),
            forall|h: u64| h != handle ==> #[trigger] final(self).buffered(h) == old(self).buffered(h),
            forall|h: u64| #[trigger] final(self).ended(h) == old(self).ended(h),
    {
        match self.inner.remove(&handle) {
            Some(b) => {
                self.inner.insert(handle, HandleBuf { data: Vec::new(), eof: b.eof });
                b.data
            },
            None => Vec::new(),
        }
    }

    /// Takes a push in: received data is appended to what is buffered, a close is
    /// recorded, and anything else is ignored.
    pub fn deliver(&mut self, push: Push)
        ensures
            match push {
                Push::Recv { handle, data } => {
                    &&& final(self).buffered(handle) == old(self).buffered(handle) + data@
                    &&& forall|h: u64|
                        h != handle ==> #[trigger] final(self).buffered(h) == old(self).buffered(h)
                    &&& forall|h: u64| #[trigger] final(self).ended(h) == old(self).ended(h)
                },
                Push::Close { handle } => {
                    &&& final(self).ended(handle)
                    &&& forall|h: u64|
                        h != handle ==> #[trigger] final(self).ended(h) == old(self).ended(h)
                    &&& forall|h: u64| #[trigger] final(self).buffered(h) == old(self).buffered(h)
                },
                _ => *final(self) == *old(self),
            },
    {
        deliver(self, push)
    }

    /// Whether the server has closed a handle.
    pub fn is_eof(&self, handle: u64) -> (r: bool)
        ensures
            r == self.ended(handle),
    {
        match self.inner.get(&handle) {
            Some(b) => b.eof,
            None => false,
        }
    }
}

impl RhpEventSink for BufferingSink {
    fn on_recv(&mut self, handle: u64, data: &[u8])
        ensures
            final(self).buffered(handle) == old(self).buffered(handle) + data@,
            forall|h: u64| h != handle ==> #[trigger] final(self).buffered(h) == old(self).buffered(h),
            forall|h: u64| #[trigger] final(self).ended(h) == old(self).ended(h),
    {
        let (mut bytes, eof) = match self.inner.remove(&handle) {
            Some(b) => (b.data, b.eof),
            None => (Vec::new(), false),
        };
        bytes.extend_from_slice(data);
        self.inner.insert(handle, HandleBuf { data: bytes, eof });
    }

    fn on_close(&mut self, handle: u64)
        ensures
            final(self).ended(handle),
            forall|h: u64| h != handle ==> #[trigger] final(self).ended(h) == old(self).ended(h),
            forall|h: u64| #[trigger] final(self).buffered(h) == old(self).buffered(h),
    {
        let bytes = match self.inner.remove(&handle) {
            Some(b) => b.data,
            None => Vec::new(),
        };
        self.inner.insert(handle, HandleBuf { data: bytes, eof: true });
    }
}

} // verus!
