//! What the reader takes in for the sockets: data, datagrams, calls and ends.
//!
//! Data is buffered for each handle until it has been written to the socket pair,
//! so that nothing is dropped where the pair is full, or where data arrives before
//! the socket is registered. Datagrams are queued one by one.

use std::collections::{HashMap, VecDeque};

use vstd::prelude::*;

use crate::rhp::client::{deliver, Push, RhpEventSink};
use crate::rhp::messages::string_view;
use crate::rhpv2::client::{
    accept_view, dequeued, next_call, queued, AcceptInfo, AcceptModel, AcceptRegistry,
};

verus! {

broadcast use vstd::std_specs::hash::group_hash_axioms;

/// The inbound stream of one handle.
pub struct Stream {
    data: Vec<u8>,
    inner: Option<i32>,
    eof: bool,
}

/// The mathematical value of a `Stream`.
#[verifier::ext_equal]
pub struct StreamModel {
    /// What has been received and not been written to the socket pair yet.
    pub data: Seq<u8>,
    /// Our end of the socket pair, once it is known.
    pub inner: Option<i32>,
    /// The server has closed the handle.
    pub eof: bool,
}

impl View for Stream {
    type V = StreamModel;

    closed spec fn view(&self) -> StreamModel {
        StreamModel { data: self.data@, inner: self.inner, eof: self.eof }
    }
}

/// What can happen to a stream.
pub enum StreamEvent {
    /// Our end of the socket pair became known.
    Registered(i32),
    /// Data was received.
    Received(Seq<u8>),
    /// The socket pair took this many bytes.
    Written(nat),
    /// The server closed the handle.
    Ended,
}

impl StreamModel {
    /// The stream after an event.
    pub open spec fn step(self, e: StreamEvent) -> StreamModel {
        match e {
            StreamEvent::Registered(inner) => StreamModel { inner: Some(inner), ..self },
            StreamEvent::Received(data) => StreamModel { data: self.data + data, ..self },
            StreamEvent::Written(n) => StreamModel { data: self.data.skip(n as int), ..self },
            StreamEvent::Ended => StreamModel { eof: true, ..self },
        }
    }

    /// The stream after a run of events.
    pub open spec fn run(self, es: Seq<StreamEvent>) -> StreamModel
        decreases es.len(),
    {
        if es.len() == 0 {
            self
        } else {
            self.run(es.drop_last()).step(es.last())
        }
    }

    /// What the socket pair has taken during a run of events.
    pub open spec fn taken(self, es: Seq<StreamEvent>) -> Seq<u8>
        decreases es.len(),
    {
        if es.len() == 0 {
            Seq::empty()
        } else {
            match es.last() {
                StreamEvent::Written(n) => self.taken(es.drop_last()) + self.run(
                    es.drop_last(),
                ).data.take(n as int),
                _ => self.taken(es.drop_last()),
            }
        }
    }

    /// The socket pair never takes more than there is.
    pub open spec fn possible(self, es: Seq<StreamEvent>) -> bool
        decreases es.len(),
    {
        es.len() > 0 ==> self.possible(es.drop_last()) && (es.last() matches StreamEvent::Written(n)
            ==> n <= self.run(es.drop_last()).data.len())
    }
}

/// What was received during a run of events.
pub open spec fn received(es: Seq<StreamEvent>) -> Seq<u8>
    decreases es.len(),
{
    if es.len() == 0 {
        Seq::empty()
    } else {
        match es.last() {
            StreamEvent::Received(data) => received(es.drop_last()) + data,
            _ => received(es.drop_last()),
        }
    }
}

/// The inbound streams, by handle.
pub type Streams = Map<u64, StreamModel>;

/// The stream of a handle; a new one where there is none.
pub open spec fn stream_of(m: Streams, handle: u64) -> StreamModel {
    if m.contains_key(handle) {
        m[handle]
    } else {
        StreamModel { data: Seq::empty(), inner: None, eof: false }
    }
}

/// What a socket pair is due: bytes to be written to it, or the end of the stream.
#[derive(Debug)]
pub enum Flush {
    /// Nothing for now.
    Nothing,
    /// Write these bytes to this descriptor.
    Write(i32, Vec<u8>),
    /// Shut this descriptor down for writing.
    Shutdown(i32),
}

/// What a socket pair is due: buffered bytes first, then the end of the stream.
pub open spec fn due(s: StreamModel, f: Flush) -> bool {
    match s.inner {
        None => f is Nothing,
        Some(fd) => if s.data.len() > 0 {
            f matches Flush::Write(d, b) && d == fd && b@ == s.data
        } else if s.eof {
            f == Flush::Shutdown(fd)
        } else {
            f is Nothing
        },
    }
}

/// Buffers inbound data until the socket pair takes it.
pub struct RecvPump {
    map: HashMap<u64, Stream>,
}

impl View for RecvPump {
    type V = Streams;

    closed spec fn view(&self) -> Streams {
        self.map@.map_values(|s: Stream| s@)
    }
}

impl RecvPump {
    pub fn new() -> (r: RecvPump)
        ensures
            r@ == Map::<u64, StreamModel>::empty(),
    {
        let r = RecvPump { map: HashMap::new() };
        assert(r@ =~= Map::empty());
        r
    }

    /// Takes the stream of a handle out; a new one where there is none.
    fn take_out(&mut self, handle: u64) -> (r: Stream)
        ensures
            r@ == stream_of(old(self)@, handle),
            final(self)@ == old(self)@.remove(handle),
    {
        let r = match self.map.remove(&handle) {
            Some(s) => s,
            None => Stream { data: Vec::new(), inner: None, eof: false },
        };
        assert(self@ =~= old(self)@.remove(handle));
        assert(r@ =~= stream_of(old(self)@, handle));
        r
    }

    fn put_back(&mut self, handle: u64, s: Stream)
        ensures
            final(self)@ == old(self)@.insert(handle, s@),
    {
        self.map.insert(handle, s);
        assert(self@ =~= old(self)@.insert(handle, s@));
    }

    /// Makes the socket pair of a handle known. What has been received before is
    /// kept.
    pub fn register(&mut self, handle: u64, inner: i32)
        ensures
            final(self)@ == old(self)@.insert(
                handle,
                stream_of(old(self)@, handle).step(StreamEvent::Registered(inner)),
            ),
    {
        let mut s = self.take_out(handle);
        s.inner = Some(inner);
        self.put_back(handle, s);
        assert(self@ =~= old(self)@.insert(
            handle,
            stream_of(old(self)@, handle).step(StreamEvent::Registered(inner)),
        ));
    }

    /// Takes in received data.
    pub fn push(&mut self, handle: u64, data: &[u8])
        ensures
            final(self)@ == old(self)@.insert(
                handle,
                stream_of(old(self)@, handle).step(StreamEvent::Received(data@)),
            ),
    {
        let mut s = self.take_out(handle);
        s.data.extend_from_slice(data);
        assert(s.data@ =~= stream_of(old(self)@, handle).data + data@);
        self.put_back(handle, s);
        assert(self@ =~= old(self)@.insert(
            handle,
            stream_of(old(self)@, handle).step(StreamEvent::Received(data@)),
        ));
    }

    /// Takes in the end of a stream.
    pub fn end(&mut self, handle: u64)
        ensures
            final(self)@ == old(self)@.insert(
                handle,
                stream_of(old(self)@, handle).step(StreamEvent::Ended),
            ),
    {
        let mut s = self.take_out(handle);
        s.eof = true;
        self.put_back(handle, s);
        assert(self@ =~= old(self)@.insert(
            handle,
            stream_of(old(self)@, handle).step(StreamEvent::Ended),
        ));
    }

    /// What the socket pair of a handle is due.
    pub fn flush(&self, handle: u64) -> (r: Flush)
        ensures
            due(stream_of(self@, handle), r),
    {
        match self.map.get(&handle) {
            Some(s) => {
                assert(self@[handle] == s@);
                match s.inner {
                    Some(fd) => {
                        if s.data.len() > 0 {
                            Flush::Write(fd, vstd::slice::slice_to_vec(s.data.as_slice()))
                        } else if s.eof {
                            Flush::Shutdown(fd)
                        } else {
                            Flush::Nothing
                        }
                    },
                    None => Flush::Nothing,
                }
            },
            None => Flush::Nothing,
        }
    }

    /// Notes that the socket pair took the first `n` bytes that it was due.
    pub fn written(&mut self, handle: u64, n: usize)
        requires
            n <= stream_of(old(self)@, handle).data.len(),
        ensures
            final(self)@ == old(self)@.insert(
                handle,
                stream_of(old(self)@, handle).step(StreamEvent::Written(n as nat)),
            ),
    {
        let mut s = self.take_out(handle);
        let rest = vstd::slice::slice_to_vec(
            vstd::slice::slice_subrange(s.data.as_slice(), n, s.data.len()),
        );
        s.data = rest;
        assert(s.data@ =~= stream_of(old(self)@, handle).data.skip(n as int));
        self.put_back(handle, s);
        assert(self@ =~= old(self)@.insert(
            handle,
            stream_of(old(self)@, handle).step(StreamEvent::Written(n as nat)),
        ));
    }

    /// Forgets a handle.
    pub fn forget(&mut self, handle: u64)
        ensures
            final(self)@ == old(self)@.remove(handle),
    {
        let _ = self.take_out(handle);
    }

    /// The handles with a stream, each once.
    pub fn handles(&self) -> (r: Vec<u64>)
        ensures
            r@.to_set() == self@.dom(),
            r@.no_duplicates(),
    {
        assert(self@.dom() =~= self.map@.dom());
        keys_of(&self.map)
    }

    /// Every stream ends.
    pub fn end_all(&mut self)
        ensures
            final(self)@ == ended_streams(old(self)@),
    {
        let handles = keys_of(&self.map);
        let ghost before = self@;
        let mut i: usize = 0;
        assert(before.dom() =~= self.map@.dom());
        while i < handles.len()
            invariant
                i <= handles@.len(),
                handles@.to_set() == before.dom(),
                handles@.no_duplicates(),
                self@ == ended_streams_of(before, handles@.take(i as int)),
            decreases handles@.len() - i,
        {
            let h: u64 = handles[i];
            proof {
                assert(handles@.to_set().contains(handles@[i as int]));
                lemma_take_next(handles@, i as int);
            }
            self.end(h);
            i += 1;
            assert(self@ =~= ended_streams_of(before, handles@.take(i as int)));
        }
        proof {
            assert(handles@.take(i as int) =~= handles@);
            assert forall|h: u64| before.contains_key(h) implies handles@.contains(h) by {
                assert(handles@.to_set().contains(h));
            }
            assert(self@ =~= ended_streams(before));
        }
    }
}

/// Every stream has ended.
pub open spec fn ended_streams(m: Streams) -> Streams {
    m.map_values(|s: StreamModel| s.step(StreamEvent::Ended))
}

/// The streams of some handles have ended.
spec fn ended_streams_of(m: Streams, handles: Seq<u64>) -> Streams {
    m.map_entries(
        |h: u64, s: StreamModel|
            if handles.contains(h) {
                s.step(StreamEvent::Ended)
            } else {
                s
            },
    )
}

/// The elements up to an index, and the one at it.
proof fn lemma_take_next(s: Seq<u64>, i: int)
    requires
        0 <= i < s.len(),
        s.no_duplicates(),
    ensures
        !s.take(i).contains(s[i]),
        forall|h: u64| #[trigger] s.take(i + 1).contains(h) <==> s.take(i).contains(h) || h == s[i],
{
    assert(s.take(i + 1) =~= s.take(i).push(s[i]));
    assert forall|h: u64| s.take(i).contains(h) || h == s[i] implies #[trigger] s.take(
        i + 1,
    ).contains(h) by {
        if s.take(i).contains(h) {
            let j = choose|j: int| 0 <= j < i && s.take(i)[j] == h;
            assert(s.take(i + 1)[j] == h);
        } else {
            assert(s.take(i + 1)[i] == h);
        }
    }
}

/// The keys of a map, each once.
fn keys_of<V>(map: &HashMap<u64, V>) -> (r: Vec<u64>)
    ensures
        r@.to_set() == map@.dom(),
        r@.no_duplicates(),
{
    let mut out: Vec<u64> = Vec::new();
    for key in it: map.keys()
        invariant
            it.seq().unref().to_set() == map@.dom(),
            it.seq().unref().no_duplicates(),
            out@ == it.seq().unref().take(it.index() as int),
            out@.no_duplicates(),
            it.index() == it.seq().len() ==> out@.to_set() == map@.dom(),
    {
        let ghost all = it.seq().unref();
        assert(all[it.index() as int] == *key);
        out.push(*key);
        assert(out@ =~= all.take(it.index() as int + 1));
        assert(out@.len() == all.len() ==> out@ =~= all);
    }
    out
}

/// No byte is dropped, doubled or reordered on the way to the socket pair,
/// whatever happens in whatever order: what the pair has taken and what is still
/// buffered are together what was received.
pub proof fn law_no_byte_is_lost(s: StreamModel, es: Seq<StreamEvent>)
    requires
        s.possible(es),
    ensures
        s.taken(es) + s.run(es).data == s.data + received(es),
    decreases es.len(),
{
    if es.len() > 0 {
        let front = es.drop_last();
        law_no_byte_is_lost(s, front);
        let buffered = s.run(front).data;
        match es.last() {
            StreamEvent::Received(data) => {
                assert(s.taken(es) + s.run(es).data =~= (s.taken(front) + buffered) + data);
                assert(s.data + received(es) =~= (s.data + received(front)) + data);
            },
            StreamEvent::Written(n) => {
                assert(s.taken(es) + s.run(es).data =~= s.taken(front) + buffered);
            },
            _ => {},
        }
    } else {
        assert(s.taken(es) + s.run(es).data =~= s.data + received(es));
    }
}

/// Data that arrives before the socket pair is known is delivered once it is: it
/// is the first thing that the pair is due.
pub proof fn law_early_data_is_delivered(s: StreamModel, inner: i32, f: Flush)
    requires
        s.data.len() > 0,
        due(s.step(StreamEvent::Registered(inner)), f),
    ensures
        f matches Flush::Write(d, b) && d == inner && b@ == s.data,
{
}

/// The end of a stream is signalled only once everything before it was written.
pub proof fn law_the_end_comes_last(s: StreamModel, f: Flush)
    requires
        due(s, f),
        f is Shutdown,
    ensures
        s.eof,
        s.data.len() == 0,
{
}

/// A datagram: its sender, and its payload with the protocol id in front.
#[derive(Debug)]
pub struct Datagram {
    pub source: Option<String>,
    pub data: Vec<u8>,
}

/// The mathematical value of a `Datagram`.
#[verifier::ext_equal]
pub struct DatagramModel {
    pub source: Option<Seq<char>>,
    pub data: Seq<u8>,
}

impl View for Datagram {
    type V = DatagramModel;

    open spec fn view(&self) -> DatagramModel {
        DatagramModel { source: string_view(self.source), data: self.data@ }
    }
}

/// The datagrams that wait on one handle.
pub struct Inbox {
    queue: VecDeque<Datagram>,
    registered: Option<(i32, i32)>,
    eof: bool,
}

/// The mathematical value of an `Inbox`.
#[verifier::ext_equal]
pub struct InboxModel {
    pub queue: Seq<DatagramModel>,
    /// The descriptors of the socket and of our end of its pair.
    pub registered: Option<(i32, i32)>,
    pub eof: bool,
}

/// The values of a queue of datagrams.
pub open spec fn datagrams_view(q: Seq<Datagram>) -> Seq<DatagramModel> {
    q.map_values(|d: Datagram| d@)
}

impl View for Inbox {
    type V = InboxModel;

    closed spec fn view(&self) -> InboxModel {
        InboxModel {
            queue: datagrams_view(self.queue@),
            registered: self.registered,
            eof: self.eof,
        }
    }
}

/// The inboxes, by handle.
pub type Inboxes = Map<u64, InboxModel>;

/// The inbox of a handle; a new one where there is none.
pub open spec fn inbox_of(m: Inboxes, handle: u64) -> InboxModel {
    if m.contains_key(handle) {
        m[handle]
    } else {
        InboxModel { queue: Seq::empty(), registered: None, eof: false }
    }
}

/// What a look into an inbox gives.
#[derive(Debug)]
pub enum DgramOutcome {
    /// The next datagram.
    Got(Datagram),
    /// No more will come.
    Eof,
    /// The handle is not registered.
    NoHandle,
    /// None for now.
    Empty,
}

/// What a look into an inbox gives: the next datagram, if any; else whether more
/// can come.
pub open spec fn outcome_of(b: InboxModel, r: DgramOutcome) -> bool {
    if b.registered is None {
        r is NoHandle
    } else if b.queue.len() > 0 {
        r matches DgramOutcome::Got(d) && d@ == b.queue[0]
    } else if b.eof {
        r is Eof
    } else {
        r is Empty
    }
}

/// An inbox after a look into it.
pub open spec fn after_look(b: InboxModel) -> InboxModel {
    if b.registered is Some && b.queue.len() > 0 {
        InboxModel { queue: b.queue.drop_first(), ..b }
    } else {
        b
    }
}

/// Queues datagrams for each handle.
pub struct DgramPump {
    map: HashMap<u64, Inbox>,
}

impl View for DgramPump {
    type V = Inboxes;

    closed spec fn view(&self) -> Inboxes {
        self.map@.map_values(|b: Inbox| b@)
    }
}

impl DgramPump {
    pub fn new() -> (r: DgramPump)
        ensures
            r@ == Map::<u64, InboxModel>::empty(),
    {
        let r = DgramPump { map: HashMap::new() };
        assert(r@ =~= Map::empty());
        r
    }

    fn take_out(&mut self, handle: u64) -> (r: Inbox)
        ensures
            r@ == inbox_of(old(self)@, handle),
            final(self)@ == old(self)@.remove(handle),
    {
        let r = match self.map.remove(&handle) {
            Some(b) => b,
            None => Inbox { queue: VecDeque::new(), registered: None, eof: false },
        };
        assert(self@ =~= old(self)@.remove(handle));
        assert(r@ =~= inbox_of(old(self)@, handle));
        r
    }

    fn put_back(&mut self, handle: u64, b: Inbox)
        ensures
            final(self)@ == old(self)@.insert(handle, b@),
    {
        self.map.insert(handle, b);
        assert(self@ =~= old(self)@.insert(handle, b@));
    }

    /// Makes the descriptors of a handle known. Datagrams that came before are
    /// kept.
    pub fn register(&mut self, handle: u64, app_fd: i32, inner_fd: i32)
        ensures
            final(self)@ == old(self)@.insert(
                handle,
                InboxModel {
                    registered: Some((app_fd, inner_fd)),
                    ..inbox_of(old(self)@, handle)
                },
            ),
    {
        let mut b = self.take_out(handle);
        b.registered = Some((app_fd, inner_fd));
        self.put_back(handle, b);
        assert(self@ =~= old(self)@.insert(
            handle,
            InboxModel { registered: Some((app_fd, inner_fd)), ..inbox_of(old(self)@, handle) },
        ));
    }

    /// Takes in a datagram.
    pub fn push(&mut self, handle: u64, source: Option<String>, data: &[u8])
        ensures
            final(self)@ == old(self)@.insert(
                handle,
                InboxModel {
                    queue: inbox_of(old(self)@, handle).queue.push(
                        DatagramModel { source: string_view(source), data: data@ },
                    ),
                    ..inbox_of(old(self)@, handle)
                },
            ),
    {
        let mut b = self.take_out(handle);
        let d = Datagram { source, data: vstd::slice::slice_to_vec(data) };
        let ghost before = b.queue@;
        b.queue.push_back(d);
        assert(datagrams_view(b.queue@) =~= datagrams_view(before).push(d@));
        self.put_back(handle, b);
        assert(self@ =~= old(self)@.insert(
            handle,
            InboxModel {
                queue: inbox_of(old(self)@, handle).queue.push(
                    DatagramModel { source: string_view(source), data: data@ },
                ),
                ..inbox_of(old(self)@, handle)
            },
        ));
    }

    /// Takes in the end of a handle.
    pub fn end(&mut self, handle: u64)
        ensures
            final(self)@ == old(self)@.insert(
                handle,
                InboxModel { eof: true, ..inbox_of(old(self)@, handle) },
            ),
    {
        let mut b = self.take_out(handle);
        b.eof = true;
        self.put_back(handle, b);
        assert(self@ =~= old(self)@.insert(
            handle,
            InboxModel { eof: true, ..inbox_of(old(self)@, handle) },
        ));
    }

    /// Our end of the socket pair of a handle: it signals to the application that
    /// there is something in the inbox.
    pub fn signal_fd(&self, handle: u64) -> (r: Option<i32>)
        ensures
            r == (match inbox_of(self@, handle).registered {
                Some((_, inner)) => Some(inner),
                None => None,
            }),
    {
        match self.map.get(&handle) {
            Some(b) => {
                assert(self@[handle] == b@);
                match b.registered {
                    Some((_, inner)) => Some(inner),
                    None => None,
                }
            },
            None => None,
        }
    }

    /// The handles with an inbox, each once.
    pub fn handles(&self) -> (r: Vec<u64>)
        ensures
            r@.to_set() == self@.dom(),
            r@.no_duplicates(),
    {
        assert(self@.dom() =~= self.map@.dom());
        keys_of(&self.map)
    }

    /// Whether a handle has an inbox.
    pub fn knows(&self, handle: u64) -> (r: bool)
        ensures
            r == self@.contains_key(handle),
    {
        self.map.contains_key(&handle)
    }

    /// Whether the socket of a handle is to be readable: there is a datagram, or no
    /// more will come.
    pub fn ready(&self, handle: u64) -> (r: bool)
        ensures
            r == ({
                let b = inbox_of(self@, handle);
                b.registered is Some && (b.queue.len() > 0 || b.eof)
            }),
    {
        match self.map.get(&handle) {
            Some(b) => {
                assert(self@[handle] == b@);
                assert(b@.queue.len() == b.queue@.len());
                b.registered.is_some() && (b.queue.len() > 0 || b.eof)
            },
            None => false,
        }
    }

    /// Takes the next datagram of a handle.
    pub fn recv_one(&mut self, handle: u64) -> (r: DgramOutcome)
        ensures
            outcome_of(inbox_of(old(self)@, handle), r),
            final(self)@ == (if old(self)@.contains_key(handle) {
                old(self)@.insert(handle, after_look(old(self)@[handle]))
            } else {
                old(self)@
            }),
    {
        if !self.map.contains_key(&handle) {
            return DgramOutcome::NoHandle;
        }
        let mut b = self.take_out(handle);
        let ghost before = b@;
        let ghost queue = b.queue@;
        let r = if b.registered.is_none() {
            DgramOutcome::NoHandle
        } else {
            match b.queue.pop_front() {
                Some(d) => {
                    assert(datagrams_view(queue)[0] == d@);
                    assert(datagrams_view(b.queue@) =~= datagrams_view(queue).drop_first());
                    DgramOutcome::Got(d)
                },
                None => {
                    assert(b.queue@ =~= queue);
                    if b.eof {
                        DgramOutcome::Eof
                    } else {
                        DgramOutcome::Empty
                    }
                },
            }
        };
        assert(b@ =~= after_look(before));
        self.put_back(handle, b);
        assert(self@ =~= old(self)@.insert(handle, after_look(old(self)@[handle])));
        r
    }

    /// Forgets a handle.
    pub fn forget(&mut self, handle: u64)
        ensures
            final(self)@ == old(self)@.remove(handle),
    {
        let _ = self.take_out(handle);
    }

    /// Every inbox ends.
    pub fn end_all(&mut self)
        ensures
            final(self)@ == ended_inboxes(old(self)@),
    {
        let handles = keys_of(&self.map);
        let ghost before = self@;
        let mut i: usize = 0;
        assert(before.dom() =~= self.map@.dom());
        while i < handles.len()
            invariant
                i <= handles@.len(),
                handles@.to_set() == before.dom(),
                handles@.no_duplicates(),
                self@ == ended_inboxes_of(before, handles@.take(i as int)),
            decreases handles@.len() - i,
        {
            let h: u64 = handles[i];
            proof {
                assert(handles@.to_set().contains(handles@[i as int]));
                lemma_take_next(handles@, i as int);
            }
            self.end(h);
            i += 1;
            assert(self@ =~= ended_inboxes_of(before, handles@.take(i as int)));
        }
        proof {
            assert(handles@.take(i as int) =~= handles@);
            assert forall|h: u64| before.contains_key(h) implies handles@.contains(h) by {
                assert(handles@.to_set().contains(h));
            }
            assert(self@ =~= ended_inboxes(before));
        }
    }
}

/// Every inbox has ended.
pub open spec fn ended_inboxes(m: Inboxes) -> Inboxes {
    m.map_values(|b: InboxModel| InboxModel { eof: true, ..b })
}

/// The inboxes of some handles have ended.
spec fn ended_inboxes_of(m: Inboxes, handles: Seq<u64>) -> Inboxes {
    m.map_entries(
        |h: u64, b: InboxModel|
            if handles.contains(h) {
                InboxModel { eof: true, ..b }
            } else {
                b
            },
    )
}

/// Datagrams are delivered whole, each once and in the order in which they came,
/// also those that came before the socket was registered.
pub proof fn law_datagrams_keep_their_order(b: InboxModel, d: DatagramModel, r: DgramOutcome)
    requires
        b.registered is Some,
        outcome_of(InboxModel { queue: b.queue.push(d), ..b }, r),
    ensures
        r matches DgramOutcome::Got(g) && g@ == (if b.queue.len() > 0 {
            b.queue[0]
        } else {
            d
        }),
        after_look(InboxModel { queue: b.queue.push(d), ..b }).queue == (if b.queue.len() > 0 {
            after_look(b).queue.push(d)
        } else {
            Seq::empty()
        }),
{
    let q = b.queue.push(d);
    if b.queue.len() > 0 {
        assert(q.drop_first() =~= b.queue.drop_first().push(d));
    } else {
        assert(q.drop_first() =~= Seq::<DatagramModel>::empty());
    }
}

/// Takes pushes in for the sockets.
pub struct InterposeSink {
    pub recv: RecvPump,
    pub dgram: DgramPump,
    /// The calls that were reported and have not been taken.
    pub calls: AcceptRegistry,
}

impl InterposeSink {
    pub fn new() -> (r: InterposeSink)
        ensures
            r.recv@ == Map::<u64, StreamModel>::empty(),
            r.dgram@ == Map::<u64, InboxModel>::empty(),
            r.calls@ == Map::<u64, Seq<AcceptModel>>::empty(),
    {
        InterposeSink {
            recv: RecvPump::new(),
            dgram: DgramPump::new(),
            calls: AcceptRegistry::new(),
        }
    }

    /// Takes the first call that was reported for a listener, if any.
    pub fn accepts(&mut self, listener: u64) -> (r: Option<AcceptInfo>)
        ensures
            accept_view(r) == next_call(old(self).calls@, listener),
            final(self).calls@ == dequeued(old(self).calls@, listener),
            final(self).recv == old(self).recv,
            final(self).dgram == old(self).dgram,
    {
        self.calls.pop(listener)
    }

    /// Takes a push in: data goes to the stream of its handle, a datagram to the inbox
    /// of its handle, a call to the queue of its listener, a close to the inbox or
    /// else to the stream; the link state is not kept here.
    pub fn deliver(&mut self, push: Push)
        ensures
            match push {
                Push::Recv { handle, data } => {
                    &&& final(self).recv@ == old(self).recv@.insert(
                        handle,
                        stream_of(old(self).recv@, handle).step(StreamEvent::Received(data@)),
                    )
                    &&& final(self).dgram == old(self).dgram
                    &&& final(self).calls == old(self).calls
                },
                Push::Dgram { handle, source, dest, data } => {
                    &&& final(self).dgram@ == old(self).dgram@.insert(
                        handle,
                        InboxModel {
                            queue: inbox_of(old(self).dgram@, handle).queue.push(
                                DatagramModel { source: string_view(source), data: data@ },
                            ),
                            ..inbox_of(old(self).dgram@, handle)
                        },
                    )
                    &&& final(self).recv == old(self).recv
                    &&& final(self).calls == old(self).calls
                },
                Push::Accept { listener, child, remote, local } => {
                    &&& final(self).calls@ == queued(
                        old(self).calls@,
                        listener,
                        AcceptModel {
                            child_handle: child,
                            remote: string_view(remote),
                            local: string_view(local),
                        },
                    )
                    &&& final(self).recv == old(self).recv
                    &&& final(self).dgram == old(self).dgram
                },
                Push::Status { handle, flags } => *final(self) == *old(self),
                Push::Close { handle } => {
                    &&& old(self).dgram@.contains_key(handle) ==> final(self).dgram@
                        == old(self).dgram@.insert(
                        handle,
                        InboxModel { eof: true, ..old(self).dgram@[handle] },
                    ) && final(self).recv == old(self).recv
                    &&& !old(self).dgram@.contains_key(handle) ==> final(self).recv@
                        == old(self).recv@.insert(
                        handle,
                        stream_of(old(self).recv@, handle).step(StreamEvent::Ended),
                    ) && final(self).dgram == old(self).dgram
                    &&& final(self).calls == old(self).calls
                },
            },
    {
        deliver(self, push)
    }

    /// Forgets a handle.
    pub fn forget(&mut self, handle: u64)
        ensures
            final(self).recv@ == old(self).recv@.remove(handle),
            final(self).dgram@ == old(self).dgram@.remove(handle),
            final(self).calls@ == old(self).calls@.remove(handle),
    {
        self.recv.forget(handle);
        self.dgram.forget(handle);
        self.calls.forget(handle);
    }
}

impl RhpEventSink for InterposeSink {
    fn on_recv(&mut self, handle: u64, data: &[u8])
        ensures
            final(self).recv@ == old(self).recv@.insert(
                handle,
                stream_of(old(self).recv@, handle).step(StreamEvent::Received(data@)),
            ),
            final(self).dgram == old(self).dgram,
            final(self).calls == old(self).calls,
    {
        self.recv.push(handle, data);
    }

    fn on_dgram(
        &mut self,
        handle: u64,
        source: Option<String>,
        _dest: Option<String>,
        data: &[u8],
    )
        ensures
            final(self).dgram@ == old(self).dgram@.insert(
                handle,
                InboxModel {
                    queue: inbox_of(old(self).dgram@, handle).queue.push(
                        DatagramModel { source: string_view(source), data: data@ },
                    ),
                    ..inbox_of(old(self).dgram@, handle)
                },
            ),
            final(self).recv == old(self).recv,
            final(self).calls == old(self).calls,
    {
        self.dgram.push(handle, source, data);
    }

    fn on_accept(
        &mut self,
        listener: u64,
        child: u64,
        remote: Option<String>,
        local: Option<String>,
    )
        ensures
            final(self).calls@ == queued(
                old(self).calls@,
                listener,
                AcceptModel {
                    child_handle: child,
                    remote: string_view(remote),
                    local: string_view(local),
                },
            ),
            final(self).recv == old(self).recv,
            final(self).dgram == old(self).dgram,
    {
        self.calls.push(listener, AcceptInfo { child_handle: child, remote, local });
    }

    fn on_close(&mut self, handle: u64)
        ensures
            old(self).dgram@.contains_key(handle) ==> final(self).dgram@
                == old(self).dgram@.insert(
                handle,
                InboxModel { eof: true, ..old(self).dgram@[handle] },
            ) && final(self).recv == old(self).recv,
            !old(self).dgram@.contains_key(handle) ==> final(self).recv@
                == old(self).recv@.insert(
                handle,
                stream_of(old(self).recv@, handle).step(StreamEvent::Ended),
            ) && final(self).dgram == old(self).dgram,
            final(self).calls == old(self).calls,
    {
        if self.dgram.knows(handle) {
            self.dgram.end(handle);
        } else {
            self.recv.end(handle);
        }
    }

    fn on_disconnect(&mut self)
        ensures
            final(self).recv@ == ended_streams(old(self).recv@),
            final(self).dgram@ == ended_inboxes(old(self).dgram@),
            final(self).calls == old(self).calls,
    {
        self.recv.end_all();
        self.dgram.end_all();
    }
}

} // verus!
