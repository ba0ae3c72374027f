//! What the calls on sockets promise, told over whole runs: what each asks for, in
//! what order, with which handles and descriptors, and what it returns.

use vstd::prelude::*;
use vstd::utf8::encode_utf8;

use super::addr::{
    best_effort, hyphen_at, is_number, without_plus, AF_AX25, CALL_BYTES, SOCKADDR_LEN, SOL_AX25,
};
use super::calls::{Action, ActionModel, Event};
use super::dgram::{
    ensure_fits, ensure_next, recvfrom_fits, recvfrom_next, sendto_fits, sendto_next,
    DgramRecvCall, DgramSendCall, EnsureCall, EnsurePhase, RecvFromPhase, SendToPhase,
};
use super::link::{
    accept_fits, accept_next, bind_next, close_fits, close_next, connect_fits, connect_next,
    hold_of, listen_fits, listen_next, send_fits, send_next, AcceptCall, AcceptPhase, BindCall,
    CloseCall, ClosePhase, ConnectCall, ConnectPhase, Hold, ListenCall, ListenPhase, SendCall,
    SendPhase,
};
use super::sink::{
    after_look, datagrams_view, due, ended_inboxes, ended_streams, inbox_of, outcome_of, stream_of, Datagram,
    DgramOutcome, Flush, InboxModel, Inboxes, StreamEvent, StreamModel, Streams,
};
use super::state::{
    changed, datagram_for, fresh, option_set, recv_step, socket_kind, source_call, Dest, DgramRecv,
    FdModel, FdState, Fds, Opened, Outgoing, OutgoingModel, Route, SOL_SOCKET, SO_ERROR,
};
use crate::libax25::addr::{is_alnum, number_value};
use crate::libax25::laws::{call_char, call_chars, law_how_a_callsign_is_encoded, on_the_air};
use crate::rhp::messages::string_view;

verus! {

/// A run of receiving one datagram, from its start: at each step the call, the
/// sockets as they are then, and the event.
pub open spec fn is_recv_run(steps: Seq<(DgramRecvCall, Fds, Event)>) -> bool {
    &&& steps.len() > 0
    &&& steps[0].0.phase == RecvFromPhase::Start
    &&& forall|i: int|
        0 <= i < steps.len() ==> recvfrom_fits((#[trigger] steps[i]).0.phase, steps[i].2)
    &&& forall|i: int|
        0 < i < steps.len() ==> {
            let (c, fds, ev) = steps[i - 1];
            let d = (#[trigger] steps[i]).0;
            d.phase == recvfrom_next(c, fds, ev).0 && d.fd == c.fd && d.room == c.room
                && d.dont_wait == c.dont_wait
        }
}

proof fn lemma_recv_phase(steps: Seq<(DgramRecvCall, Fds, Event)>, i: int)
    requires
        is_recv_run(steps),
        0 <= i < steps.len(),
    ensures
        steps[i].0.fd == steps[0].0.fd,
        steps[i].0.room == steps[0].0.room,
        steps[i].0.dont_wait == steps[0].0.dont_wait,
        i == 1 ==> steps[1].0.phase == RecvFromPhase::Ensuring,
        i >= 2 ==> steps[1].2 matches Event::Ensured(Ok(_)),
        i >= 3 ==> steps[2].2 is Flag,
        ({
            let h = steps[1].2->Ensured_0->Ok_0;
            let p = steps[1].1.contains_key(steps[0].0.fd) && steps[1].1[steps[0].0.fd].pidincl;
            let q = steps[2].2->Flag_0 || steps[0].0.dont_wait;
            &&& i == 2 ==> steps[2].0.phase == RecvFromPhase::Asking(h, p)
            &&& i >= 3 && i % 2 == 1 ==> steps[i].0.phase == RecvFromPhase::Looking(h, p, q)
            &&& i >= 3 && i % 2 == 0 ==> steps[i].0.phase == RecvFromPhase::Waiting(h, p, q) && !q
        }),
    decreases i,
{
    assert(recvfrom_fits(steps[i].0.phase, steps[i].2));
    if i > 0 {
        lemma_recv_phase(steps, i - 1);
        assert(recvfrom_fits(steps[i - 1].0.phase, steps[i - 1].2));
        let (c, fds, ev) = steps[i - 1];
        assert(steps[i].0.phase == recvfrom_next(c, fds, ev).0);
    }
}

/// Receiving a datagram, over every run, however often it waits. It opens the
/// handle; where that fails, it fails with that errno. Then it asks whether the
/// socket may wait, and looks into the inbox of that very handle. A datagram that is
/// found is delivered, with its protocol id exactly where the socket was set to have
/// it when its handle was there, cut to the room, and with its sender. The end gives
/// 0, a handle that is not known `ENOTCONN`. Where there is nothing, it waits and
/// looks again, or fails with `EAGAIN` where the socket is non-blocking or the call
/// must not wait.
pub proof fn law_receiving_a_datagram(steps: Seq<(DgramRecvCall, Fds, Event)>)
    requires
        is_recv_run(steps),
    ensures
        ({
            let n = steps.len() - 1;
            let call = steps[0].0;
            let action = recvfrom_next(steps[n].0, steps[n].1, steps[n].2).1;
            let handle = steps[1].2->Ensured_0->Ok_0;
            let sockets = steps[1].1;
            let pidincl = sockets.contains_key(call.fd) && sockets[call.fd].pidincl;
            let hurry = steps[2].2->Flag_0 || call.dont_wait;
            &&& n == 0 ==> action == ActionModel::EnsureDgram
            &&& n == 1 ==> (match steps[1].2 {
                Event::Ensured(Ok(_)) => action == ActionModel::AskNonblocking,
                Event::Ensured(Err(e)) => action == ActionModel::Fail(e),
                _ => false,
            })
            &&& n >= 2 && n % 2 == 0 ==> action == ActionModel::LookInbox { handle }
            &&& n >= 3 && n % 2 == 1 ==> (match steps[n].2 {
                Event::Looked(DgramOutcome::Got(d)) => {
                    let whole = if pidincl || d.data@.len() == 0 {
                        d.data@
                    } else {
                        d.data@.subrange(1, d.data@.len() as int)
                    };
                    action == ActionModel::Deliver {
                        payload: if whole.len() <= call.room {
                            whole
                        } else {
                            whole.subrange(0, call.room as int)
                        },
                        source: match d.source {
                            Some(s) => s@,
                            None => Seq::empty(),
                        },
                    }
                },
                Event::Looked(DgramOutcome::Eof) => action == ActionModel::Return(0),
                Event::Looked(DgramOutcome::NoHandle) => action == ActionModel::Fail(107),
                Event::Looked(DgramOutcome::Empty) => action == (if hurry {
                    ActionModel::Fail(11)
                } else {
                    ActionModel::WaitReadable
                }),
                _ => false,
            })
        }),
{
    let n = steps.len() - 1;
    lemma_recv_phase(steps, n);
    assert(recvfrom_fits(steps[n].0.phase, steps[n].2));
    if n >= 3 && n % 2 == 1 {
        match steps[n].2 {
            Event::Looked(DgramOutcome::Got(d)) => {
                let data = d.data@;
                if data.len() > 0 {
                    assert(data.drop_first() =~= data.subrange(1, data.len() as int));
                }
            },
            _ => {},
        }
    }
}

/// A run of sending one datagram, from its start: at each step the call, the sockets
/// as they are then, the destination, the configured callsign, and the event.
pub open spec fn is_sendto_run(
    steps: Seq<(DgramSendCall, Fds, Dest, Option<String>, Event)>,
) -> bool {
    &&& steps.len() > 0
    &&& steps[0].0.phase == SendToPhase::Start
    &&& forall|i: int|
        0 <= i < steps.len() ==> sendto_fits((#[trigger] steps[i]).0.phase, steps[i].4)
    &&& forall|i: int|
        0 < i < steps.len() ==> {
            let (c, fds, dest, configured, ev) = steps[i - 1];
            let d = (#[trigger] steps[i]).0;
            &&& d.phase == sendto_next(c, fds, dest, configured, ev).0
            &&& d.fd == c.fd
            &&& d.data == c.data
            &&& d.phase is Client ==> datagram_for(fds, c.fd, dest, c.data@, configured) == Ok::<
                OutgoingModel,
                i32,
            >(OutgoingModel { remote: d.remote@, local: d.local@, wire: d.wire@ })
        }
}

/// Sending a datagram, over every run. It opens the handle; where that fails, it
/// fails with that errno. It needs the socket, a destination, and something to send.
/// It reaches the engine, and sends on that very handle: to the address that was
/// given, else to the default destination; from the socket's callsign, else the
/// configured one, else "NOCALL"; and with the protocol id 0xF0 in front, unless the
/// socket is set to have it in the data. All the data then counts as sent.
pub proof fn law_sending_a_datagram(
    steps: Seq<(DgramSendCall, Fds, Dest, Option<String>, Event)>,
)
    requires
        is_sendto_run(steps),
    ensures
        steps.len() <= 4,
        ({
            let n = steps.len() - 1;
            let (c, fds, dest, configured, ev) = steps[n];
            let call = steps[0].0;
            let action = sendto_next(c, fds, dest, configured, ev).1;
            let sockets = steps[1].1;
            let s = sockets[call.fd];
            let data = call.data@;
            &&& n == 0 ==> action == ActionModel::EnsureDgram
            &&& n == 1 ==> (match ev {
                Event::Ensured(Err(e)) => action == ActionModel::Fail(e),
                Event::Ensured(Ok(_)) => if !sockets.contains_key(call.fd) {
                    action == ActionModel::Fail(9)
                } else if dest is Default && s.remote is None {
                    action == ActionModel::Fail(89)
                } else if dest matches Dest::Address(None) {
                    action == ActionModel::Fail(22)
                } else if s.pidincl && data.len() == 0 {
                    action == ActionModel::Fail(22)
                } else {
                    action == ActionModel::GetClient
                },
                _ => false,
            })
            &&& n == 2 ==> (match ev {
                Event::Client(true) => action == ActionModel::SendTo {
                    handle: steps[1].4->Ensured_0->Ok_0,
                    remote: match steps[1].2 {
                        Dest::Address(Some(a)) => a@,
                        _ => s.remote->Some_0,
                    },
                    local: match (s.local, steps[1].3) {
                        (Some(l), _) => l,
                        (None, Some(l)) => l@,
                        (None, None) => seq!['N', 'O', 'C', 'A', 'L', 'L'],
                    },
                    wire: if s.pidincl {
                        data
                    } else {
                        seq![0xF0u8] + data
                    },
                },
                Event::Client(false) => action == ActionModel::Fail(5),
                _ => false,
            })
            &&& n == 3 ==> (match ev {
                Event::Finished(Ok(_)) => action == ActionModel::Return(data.len() as int),
                Event::Finished(Err(e)) => action == ActionModel::Fail(e@.errno()),
                _ => false,
            })
        }),
{
    reveal_strlit("NOCALL");
    assert("NOCALL"@ =~= seq!['N', 'O', 'C', 'A', 'L', 'L']);
    assert(sendto_fits(steps[0].0.phase, steps[0].4));
    if steps.len() > 1 {
        assert(steps[1].0.phase == SendToPhase::Ensuring);
        assert(sendto_fits(steps[1].0.phase, steps[1].4));
    }
    if steps.len() > 2 {
        assert(sendto_fits(steps[2].0.phase, steps[2].4));
        assert(steps[2].0.fd == steps[0].0.fd);
        assert(steps[2].0.phase is Client);
    }
    if steps.len() > 3 {
        assert(sendto_fits(steps[3].0.phase, steps[3].4));
        assert(steps[3].0.phase == SendToPhase::Sending);
        assert(steps[3].0.data == steps[2].0.data);
    }
    if steps.len() > 4 {
        assert(sendto_fits(steps[4].0.phase, steps[4].4));
        assert(false);
    }
}

/// A run of opening the handle of a datagram socket, from its start.
pub open spec fn is_ensure_run(steps: Seq<(EnsureCall, Fds, Event)>) -> bool {
    &&& steps.len() > 0
    &&& steps[0].0.phase == EnsurePhase::Start
    &&& forall|i: int|
        0 <= i < steps.len() ==> ensure_fits((#[trigger] steps[i]).0.phase, steps[i].2)
    &&& forall|i: int|
        0 < i < steps.len() ==> {
            let (c, fds, ev) = steps[i - 1];
            let d = (#[trigger] steps[i]).0;
            &&& d.phase == ensure_next(c.fd, string_view(c.local), c.phase, fds, ev).0
            &&& d.fd == c.fd
            &&& string_view(d.local) == (if c.phase == EnsurePhase::Start && d.phase
                == EnsurePhase::Client {
                fds[c.fd].local
            } else {
                string_view(c.local)
            })
        }
}

/// What a step of opening a handle leaves of the sockets and asks for.
pub open spec fn ensured_by(step: (EnsureCall, Fds, Event)) -> (Fds, ActionModel) {
    let (c, fds, ev) = step;
    let r = ensure_next(c.fd, string_view(c.local), c.phase, fds, ev);
    (r.1, r.2)
}

/// Opening the handle of a datagram socket, over every run. A handle that is there
/// is handed on. Else the engine is reached, a datagram handle allocated, and bound to
/// the callsign that the socket had at the start, if it had one. Where the socket is
/// still there then and has no other handle, the handle becomes the socket's and
/// nothing else changes; it is registered with the socket's own descriptors and
/// handed on. Otherwise the handle is closed again: where another one was faster that
/// one is handed on, where the socket is gone it fails with `EBADF`, and where binding
/// failed with the errno of that.
pub proof fn law_opening_a_datagram_handle(steps: Seq<(EnsureCall, Fds, Event)>)
    requires
        is_ensure_run(steps),
    ensures
        ({
            let n = steps.len() - 1;
            let fd = steps[0].0.fd;
            let fds = steps[n].1;
            let (after, action) = ensured_by(steps[n]);
            let named = steps[0].1[fd].local;
            let handle = steps[2].2->Handle_0->Ok_0;
            let k = if named is Some {
                3int
            } else {
                2
            };
            let seen = steps[k].1;
            let unbound = named is Some && steps[3].2->Finished_0 is Err;
            &&& n <= k + 1
            &&& n == 0 ==> after == fds && action == (if !fds.contains_key(fd) {
                ActionModel::Fail(9)
            } else if fds[fd].handle is Some {
                ActionModel::Have(fds[fd].handle->Some_0)
            } else {
                ActionModel::GetClient
            })
            &&& n == 1 ==> after == fds && (match steps[1].2 {
                Event::Client(true) => action == ActionModel::OpenSocket { dgram: true },
                Event::Client(false) => action == ActionModel::Fail(111),
                _ => false,
            })
            &&& n == 2 && named is Some ==> after == fds && (match steps[2].2 {
                Event::Handle(Ok(h)) => action == ActionModel::Bind {
                    handle: h,
                    local: named->Some_0,
                },
                Event::Handle(Err(e)) => action == ActionModel::Fail(e@.errno()),
                _ => false,
            })
            &&& n == 2 && named is None && steps[2].2->Handle_0 is Err ==> after == fds && action
                == ActionModel::Fail(steps[2].2->Handle_0->Err_0@.errno())
            &&& n == k && unbound ==> after == fds && action == ActionModel::Close { handle }
            &&& n == k && steps[2].2->Handle_0 is Ok && !unbound ==> if fds.contains_key(fd)
                && fds[fd].handle is None {
                &&& after == fds.insert(fd, FdModel { handle: Some(handle), ..fds[fd] })
                &&& action == ActionModel::RegisterDgram {
                    handle,
                    app_fd: fds[fd].app_fd,
                    inner_fd: fds[fd].inner_fd,
                }
            } else {
                after == fds && action == ActionModel::Close { handle }
            }
            &&& n == k + 1 ==> after == fds && action == (if unbound {
                ActionModel::Fail(steps[3].2->Finished_0->Err_0@.errno())
            } else if !seen.contains_key(fd) {
                ActionModel::Fail(9)
            } else if seen[fd].handle is Some {
                ActionModel::Have(seen[fd].handle->Some_0)
            } else {
                ActionModel::Have(handle)
            })
        }),
{
    assert(ensure_fits(steps[0].0.phase, steps[0].2));
    if steps.len() > 1 {
        assert(ensure_fits(steps[1].0.phase, steps[1].2));
        assert(steps[1].0.phase == EnsurePhase::Client);
        assert(steps[1].0.fd == steps[0].0.fd);
    }
    if steps.len() > 2 {
        assert(ensure_fits(steps[2].0.phase, steps[2].2));
        assert(steps[2].0.phase == EnsurePhase::Opening);
        assert(steps[2].0.fd == steps[0].0.fd);
        assert(string_view(steps[2].0.local) == steps[0].1[steps[0].0.fd].local);
    }
    if steps.len() > 3 {
        assert(ensure_fits(steps[3].0.phase, steps[3].2));
        assert(steps[3].0.fd == steps[0].0.fd);
    }
    if steps.len() > 4 {
        assert(ensure_fits(steps[4].0.phase, steps[4].2));
        assert(steps[4].0.fd == steps[0].0.fd);
    }
    if steps.len() > 5 {
        assert(ensure_fits(steps[5].0.phase, steps[5].2));
    }
}

/// `bind`: notes the callsign where one was read, and nothing else; then a
/// connectionless socket opens its handle, and reports what came of that, and another
/// is done.
pub proof fn law_binding(c: BindCall, fds: Fds, ev: Event)
    requires
        c.opening ==> ev is Ensured,
    ensures
        ({
            let (opening, after, action) = bind_next(c, fds, ev);
            &&& c.opening ==> after == fds && !opening && action == (match ev->Ensured_0 {
                Ok(_) => ActionModel::Return(0),
                Err(e) => ActionModel::Fail(e),
            })
            &&& !c.opening && !fds.contains_key(c.fd) ==> after == fds && !opening && action
                == ActionModel::PassThrough
            &&& !c.opening && fds.contains_key(c.fd) ==> {
                &&& c.call is None ==> after == fds
                &&& c.call is Some ==> after == fds.insert(
                    c.fd,
                    FdModel { local: Some(c.call->Some_0@), ..fds[c.fd] },
                )
                &&& opening == fds[c.fd].dgram
                &&& action == (if fds[c.fd].dgram {
                    ActionModel::EnsureDgram
                } else {
                    ActionModel::Return(0)
                })
            }
        }),
{
}

/// A run of `listen` from its start.
pub open spec fn is_listen_run(steps: Seq<(ListenCall, Fds, Event)>) -> bool {
    &&& steps.len() > 0
    &&& steps[0].0.phase == ListenPhase::Start
    &&& forall|i: int|
        0 <= i < steps.len() ==> listen_fits((#[trigger] steps[i]).0.phase, steps[i].2)
    &&& forall|i: int|
        0 < i < steps.len() ==> {
            let (c, fds, ev) = steps[i - 1];
            let d = (#[trigger] steps[i]).0;
            &&& d.phase == listen_next(c, fds, ev).0
            &&& d.fd == c.fd
            &&& d.phase == ListenPhase::Client ==> Some(d.local@) == fds[c.fd].local
            &&& d.phase != ListenPhase::Client ==> d.local == c.local
        }
}

/// `listen`, over every run: it needs a callsign and the engine; allocates a stream
/// handle, binds it to that callsign and listens on it. Where all three succeed, and
/// only then, it returns 0, and the socket is a listener with that handle. It fails with
/// the errno of what failed, and changes nothing then.
pub proof fn law_listening(steps: Seq<(ListenCall, Fds, Event)>)
    requires
        is_listen_run(steps),
    ensures
        steps.len() <= 5,
        ({
            let n = steps.len() - 1;
            let (c, fds, ev) = steps[n];
            let (_, after, action) = listen_next(c, fds, ev);
            let fd = steps[0].0.fd;
            let handle = steps[2].2->Handle_0->Ok_0;
            &&& n == 0 ==> action == (if !fds.contains_key(fd) {
                ActionModel::PassThrough
            } else if fds[fd].local is None {
                ActionModel::Fail(22)
            } else {
                ActionModel::GetClient
            })
            &&& n == 1 ==> (match ev {
                Event::Client(true) => action == ActionModel::OpenSocket { dgram: false },
                Event::Client(false) => action == ActionModel::Fail(111),
                _ => false,
            })
            &&& n == 2 ==> (match ev {
                Event::Handle(Ok(h)) => action == ActionModel::Bind {
                    handle: h,
                    local: steps[0].1[fd].local->Some_0,
                },
                Event::Handle(Err(e)) => action == ActionModel::Fail(e@.errno()),
                _ => false,
            })
            &&& n == 3 ==> (match ev {
                Event::Finished(Ok(_)) => action == ActionModel::Listen { handle },
                Event::Finished(Err(e)) => action == ActionModel::Fail(e@.errno()),
                _ => false,
            })
            &&& n == 4 ==> (match ev {
                Event::Finished(Ok(_)) => {
                    &&& action == ActionModel::Return(0)
                    &&& fds.contains_key(fd) ==> after == fds.insert(
                        fd,
                        FdModel { handle: Some(handle), listening: true, ..fds[fd] },
                    )
                    &&& !fds.contains_key(fd) ==> after == fds
                },
                Event::Finished(Err(e)) => action == ActionModel::Fail(e@.errno()) && after == fds,
                _ => false,
            })
            &&& n < 4 ==> after == fds
        }),
{
    assert(listen_fits(steps[0].0.phase, steps[0].2));
    if steps.len() > 1 {
        assert(listen_fits(steps[1].0.phase, steps[1].2));
        assert(steps[1].0.phase == ListenPhase::Client);
    }
    if steps.len() > 2 {
        assert(listen_fits(steps[2].0.phase, steps[2].2));
        assert(steps[2].0.phase == ListenPhase::Opening);
        assert(steps[2].0.local == steps[1].0.local);
    }
    if steps.len() > 3 {
        assert(listen_fits(steps[3].0.phase, steps[3].2));
        assert(steps[3].0.phase is Binding);
    }
    if steps.len() > 4 {
        assert(listen_fits(steps[4].0.phase, steps[4].2));
        assert(steps[4].0.phase is Listening);
    }
    if steps.len() > 5 {
        assert(listen_fits(steps[5].0.phase, steps[5].2));
        assert(false);
    }
}

/// A run of `connect` from its start, with all that the call keeps on the way.
pub open spec fn is_full_connect_run(steps: Seq<(ConnectCall, Fds, Event)>) -> bool {
    &&& steps.len() > 0
    &&& steps[0].0.phase == ConnectPhase::Start
    &&& forall|i: int|
        0 <= i < steps.len() ==> connect_fits((#[trigger] steps[i]).0.phase, steps[i].2)
    &&& forall|i: int|
        0 < i < steps.len() ==> {
            let (c, fds, ev) = steps[i - 1];
            let d = (#[trigger] steps[i]).0;
            &&& d.phase == connect_next(c, fds, ev).0
            &&& d.fd == c.fd
            &&& string_view(d.remote) == string_view(c.remote)
            &&& d.phase == ConnectPhase::Client ==> d.local@ == source_call(
                fds[c.fd].local,
                c.configured,
            )
            &&& d.phase != ConnectPhase::Client ==> d.local == c.local
        }
}

/// `connect` on a connectionless socket, over every run: it opens the handle; then
/// the callsign is the socket's default destination, and nothing else changes.
pub proof fn law_connecting_a_datagram_socket(steps: Seq<(ConnectCall, Fds, Event)>)
    requires
        is_full_connect_run(steps),
        steps[0].1.contains_key(steps[0].0.fd),
        steps[0].1[steps[0].0.fd].dgram,
    ensures
        steps.len() <= 2,
        ({
            let n = steps.len() - 1;
            let (c, fds, ev) = steps[n];
            let (_, after, action) = connect_next(c, fds, ev);
            let fd = steps[0].0.fd;
            &&& n == 0 ==> after == fds && action == (if steps[0].0.remote is None {
                ActionModel::Fail(22)
            } else {
                ActionModel::EnsureDgram
            })
            &&& n == 1 ==> (match ev {
                Event::Ensured(Ok(_)) => {
                    &&& action == ActionModel::Return(0)
                    &&& fds.contains_key(fd) ==> after == fds.insert(
                        fd,
                        FdModel { remote: Some(steps[0].0.remote->Some_0@), ..fds[fd] },
                    )
                    &&& !fds.contains_key(fd) ==> after == fds
                },
                Event::Ensured(Err(e)) => action == ActionModel::Fail(e) && after == fds,
                _ => false,
            })
        }),
{
    assert(connect_fits(steps[0].0.phase, steps[0].2));
    if steps.len() > 1 {
        assert(connect_fits(steps[1].0.phase, steps[1].2));
        assert(steps[1].0.phase == ConnectPhase::Ensuring);
        assert(steps[1].0.remote is Some);
    }
    if steps.len() > 2 {
        assert(connect_fits(steps[2].0.phase, steps[2].2));
        assert(false);
    }
}

proof fn lemma_connect_phase(steps: Seq<(ConnectCall, Fds, Event)>, i: int)
    requires
        is_full_connect_run(steps),
        steps[0].1.contains_key(steps[0].0.fd),
        !steps[0].1[steps[0].0.fd].dgram,
        0 <= i < steps.len(),
    ensures
        ({
            let fd = steps[0].0.fd;
            let handle = steps[2].2->Opened_0->Ok_0.handle;
            let s = steps[2].1[fd];
            let o = Opened { handle, app_fd: s.app_fd, inner_fd: s.inner_fd };
            &&& i <= 7
            &&& steps[i].0.fd == fd
            &&& string_view(steps[i].0.remote) == string_view(steps[0].0.remote)
            &&& i > 0 ==> steps[0].0.remote is Some
            &&& i == 1 ==> steps[1].0.phase == ConnectPhase::Client
            &&& 1 <= i ==> steps[i].0.local@ == source_call(
                steps[0].1[fd].local,
                steps[0].0.configured,
            )
            &&& i == 2 ==> steps[2].0.phase == ConnectPhase::Opening
            &&& i >= 3 ==> steps[2].2 is Opened && steps[2].2->Opened_0 is Ok
            &&& i == 3 ==> steps[3].0.phase == ConnectPhase::Registering(o)
            &&& i == 4 ==> steps[4].0.phase == ConnectPhase::Asking(o)
            &&& i >= 5 ==> steps[4].2 is Flag
            &&& i == 5 ==> steps[5].0.phase == (if steps[4].2->Flag_0 {
                ConnectPhase::Arming(o)
            } else {
                ConnectPhase::Waiting(o)
            })
            &&& i == 6 ==> steps[6].0.phase == (if steps[4].2->Flag_0 {
                ConnectPhase::Peeking(o)
            } else {
                ConnectPhase::Forwarding
            })
            &&& i == 7 ==> steps[4].2->Flag_0 && steps[7].0.phase == ConnectPhase::Resolving
        }),
    decreases i,
{
    assert(connect_fits(steps[i].0.phase, steps[i].2));
    if i > 0 {
        lemma_connect_phase(steps, i - 1);
        assert(connect_fits(steps[i - 1].0.phase, steps[i - 1].2));
        let (c, fds, ev) = steps[i - 1];
        let d = steps[i].0;
        assert(d.phase == connect_next(c, fds, ev).0);
    }
}

/// `connect` on a stream socket, over every run. It needs a callsign and the engine,
/// and opens a link to that callsign, from the socket's own callsign at the start,
/// else the configured one, else "NOCALL". The handle that comes back and the callsign
/// become the socket's, and nothing else changes; where the socket is gone, it fails
/// with `EBADF`. From then on everything concerns this handle and these descriptors:
/// inbound data is routed; a non-blocking socket is held, looked at once, let go where
/// the link is decided, and told that the connect is in progress; a blocking one waits
/// for up to five minutes, fails with the errno of that, or is forwarded and done.
pub proof fn law_connecting_a_stream_socket(steps: Seq<(ConnectCall, Fds, Event)>)
    requires
        is_full_connect_run(steps),
        steps[0].1.contains_key(steps[0].0.fd),
        !steps[0].1[steps[0].0.fd].dgram,
    ensures
        steps.len() <= 8,
        ({
            let n = steps.len() - 1;
            let (c, fds, ev) = steps[n];
            let (_, after, action) = connect_next(c, fds, ev);
            let call = steps[0].0;
            let fd = call.fd;
            let remote = call.remote->Some_0@;
            let handle = steps[2].2->Opened_0->Ok_0.handle;
            let app_fd = steps[2].1[fd].app_fd;
            let inner_fd = steps[2].1[fd].inner_fd;
            let nonblocking = steps[4].2->Flag_0;
            &&& n != 2 ==> after == fds
            &&& n == 0 ==> action == (if call.remote is None {
                ActionModel::Fail(22)
            } else {
                ActionModel::GetClient
            })
            &&& n == 1 ==> (match ev {
                Event::Client(true) => action == ActionModel::OpenLink {
                    local: match (steps[0].1[fd].local, call.configured) {
                        (Some(l), _) => l,
                        (None, Some(l)) => l@,
                        (None, None) => seq!['N', 'O', 'C', 'A', 'L', 'L'],
                    },
                    remote,
                },
                Event::Client(false) => action == ActionModel::Fail(111),
                _ => false,
            })
            &&& n == 2 ==> (match ev {
                Event::Opened(Ok(o)) => if fds.contains_key(fd) {
                    &&& after == fds.insert(
                        fd,
                        FdModel { handle: Some(o.handle), remote: Some(remote), ..fds[fd] },
                    )
                    &&& action == ActionModel::RegisterRecv { handle: o.handle, inner_fd }
                } else {
                    after == fds && action == ActionModel::Fail(9)
                },
                Event::Opened(Err(e)) => after == fds && action == ActionModel::Fail(e@.errno()),
                _ => false,
            })
            &&& n == 3 ==> action == ActionModel::AskNonblocking
            &&& n == 4 ==> (match ev {
                Event::Flag(true) => action == ActionModel::HoldWritable {
                    handle,
                    app_fd,
                    inner_fd,
                },
                Event::Flag(false) => action == ActionModel::WaitLink {
                    handle,
                    limit: 300_000_000_000,
                },
                _ => false,
            })
            &&& n == 5 && nonblocking ==> action == ActionModel::PeekLink { handle }
            &&& n == 5 && !nonblocking ==> (match ev {
                Event::Linked(Ok(_)) => action == ActionModel::RegisterOutbound {
                    handle,
                    inner_fd,
                },
                Event::Linked(Err(e)) => action == ActionModel::Fail(e),
                _ => false,
            })
            &&& n == 6 && nonblocking ==> (match ev {
                Event::Flag(true) => action == ActionModel::LetWritable { handle },
                Event::Flag(false) => action == ActionModel::Fail(115),
                _ => false,
            })
            &&& n == 6 && !nonblocking ==> action == ActionModel::Return(0)
            &&& n == 7 ==> nonblocking && action == ActionModel::Fail(115)
        }),
{
    reveal_strlit("NOCALL");
    assert("NOCALL"@ =~= seq!['N', 'O', 'C', 'A', 'L', 'L']);
    let n = steps.len() - 1;
    lemma_connect_phase(steps, n);
    assert(connect_fits(steps[n].0.phase, steps[n].2));
    if n > 0 {
        assert(steps[n].0.remote->Some_0@ == steps[0].0.remote->Some_0@);
    }
}

/// What becomes of a socket: one that is not held, or whose link is undecided, stays
/// as it is; one whose link is up is opened and forwarded, one whose link has failed is
/// opened only.
pub proof fn law_when_a_held_socket_is_let_go(link: Option<Result<(), i32>>)
    ensures
        hold_of(false, link) == Hold::Keep,
        hold_of(true, None) == Hold::Keep,
        link matches Some(Ok(_)) ==> hold_of(true, link) == Hold::OpenAndForward,
        link matches Some(Err(_)) ==> hold_of(true, link) == Hold::Open,
{
}

/// A run of `accept` from its start.
pub open spec fn is_accept_run(steps: Seq<(AcceptCall, Fds, Event)>) -> bool {
    &&& steps.len() > 0
    &&& steps[0].0.phase == AcceptPhase::Start
    &&& forall|i: int| 0 <= i < steps.len() ==> accept_fits((#[trigger] steps[i]).0, steps[i].2)
    &&& forall|i: int|
        0 < i < steps.len() ==> {
            let (c, fds, ev) = steps[i - 1];
            let d = (#[trigger] steps[i]).0;
            &&& d.phase == accept_next(c, fds, ev).0
            &&& d.fd == c.fd
            &&& d.phase is Client ==> string_view(d.local) == fds[c.fd].local
            &&& !(d.phase is Client) && !(d.phase is Registering) ==> string_view(d.local)
                == string_view(c.local)
            &&& d.phase == AcceptPhase::Making ==> ev->Called_0 is Some && d.info == ev->Called_0
            &&& d.phase is Registering ==> string_view(d.peer) == c.info->Some_0@.remote
            &&& d.phase is Forwarding ==> d.peer == c.peer
        }
}

proof fn lemma_accept_phase(steps: Seq<(AcceptCall, Fds, Event)>, i: int)
    requires
        is_accept_run(steps),
        0 <= i < steps.len(),
    ensures
        ({
            let fd = steps[0].0.fd;
            let listener = steps[0].1[fd].handle->Some_0;
            let info = steps[3].2->Called_0->Some_0@;
            let made = steps[4].2->Made_0->Some_0;
            &&& i <= 7
            &&& steps[i].0.fd == fd
            &&& i == 1 ==> steps[1].0.phase == AcceptPhase::Client(listener)
            &&& i == 2 ==> steps[2].0.phase == AcceptPhase::Asking(listener)
            &&& 1 <= i <= 4 ==> string_view(steps[i].0.local) == steps[0].1[fd].local
            &&& i >= 3 ==> steps[2].2 is Flag
            &&& i == 3 ==> steps[3].0.phase == AcceptPhase::Calling(steps[2].2->Flag_0)
            &&& i >= 4 ==> steps[3].2 is Called && steps[3].2->Called_0 is Some
            &&& i == 4 ==> steps[4].0.phase == AcceptPhase::Making && steps[4].0.info
                == steps[3].2->Called_0
            &&& i >= 5 ==> steps[4].2 is Made && steps[4].2->Made_0 is Some
            &&& i == 5 ==> steps[5].0.phase == AcceptPhase::Registering(
                made.0,
                info.child_handle,
                made.1,
            )
            &&& 5 <= i <= 6 ==> string_view(steps[i].0.peer) == info.remote
            &&& i == 6 ==> steps[6].0.phase == AcceptPhase::Forwarding(made.0)
            &&& i == 7 ==> info.remote is Some && steps[7].0.phase == AcceptPhase::Reporting(
                made.0,
            )
        }),
    decreases i,
{
    assert(accept_fits(steps[i].0, steps[i].2));
    if i > 0 {
        lemma_accept_phase(steps, i - 1);
        assert(accept_fits(steps[i - 1].0, steps[i - 1].2));
        let (c, fds, ev) = steps[i - 1];
        let d = steps[i].0;
        assert(d.phase == accept_next(c, fds, ev).0);
    }
}

/// `accept`, over every run. It needs a listener and the engine. On the handle that
/// the listener had at the start it takes a call, or waits for one where the socket is
/// blocking; where there is none, a non-blocking one fails with `EAGAIN` and a blocking
/// one with `ECONNABORTED`. The call gets a socket pair of its own: a stream socket
/// with its handle, the caller as peer, the callsign that was called, else that of the
/// listener, and nothing else. Its data is routed and forwarded, the caller is reported
/// where it is known, and the new socket is returned.
pub proof fn law_accepting(steps: Seq<(AcceptCall, Fds, Event)>)
    requires
        is_accept_run(steps),
    ensures
        steps.len() <= 8,
        ({
            let n = steps.len() - 1;
            let (c, fds, ev) = steps[n];
            let (_, after, action) = accept_next(c, fds, ev);
            let fd = steps[0].0.fd;
            let listener = steps[0].1[fd].handle->Some_0;
            let info = steps[3].2->Called_0->Some_0;
            let (app_fd, inner_fd) = steps[4].2->Made_0->Some_0;
            &&& n != 4 ==> after == fds
            &&& n == 0 ==> action == (if !fds.contains_key(fd) {
                ActionModel::PassThrough
            } else if fds[fd].handle is None {
                ActionModel::Fail(22)
            } else {
                ActionModel::GetClient
            })
            &&& n == 1 ==> (match ev {
                Event::Client(true) => action == ActionModel::AskNonblocking,
                Event::Client(false) => action == ActionModel::Fail(103),
                _ => false,
            })
            &&& n == 2 ==> (match ev {
                Event::Flag(true) => action == ActionModel::TakeCall { listener },
                Event::Flag(false) => action == ActionModel::WaitCall { listener },
                _ => false,
            })
            &&& n == 3 ==> (match ev {
                Event::Called(Some(_)) => action == ActionModel::MakeSocket,
                Event::Called(None) => action == (if steps[2].2->Flag_0 {
                    ActionModel::Fail(11)
                } else {
                    ActionModel::Fail(103)
                }),
                _ => false,
            })
            &&& n == 4 ==> (match ev {
                Event::Made(None) => after == fds && action == ActionModel::Fail(23),
                Event::Made(Some((a, i))) => {
                    &&& action == ActionModel::RegisterRecv {
                        handle: info.child_handle,
                        inner_fd: i,
                    }
                    &&& after == fds.insert(
                        a,
                        FdModel {
                            app_fd: a,
                            inner_fd: i,
                            handle: Some(info.child_handle),
                            local: if info.local is Some {
                                Some(info.local->Some_0@)
                            } else {
                                steps[0].1[fd].local
                            },
                            remote: match info.remote {
                                Some(r) => Some(r@),
                                None => None,
                            },
                            listening: false,
                            paclen: None,
                            window: None,
                            dgram: false,
                            pidincl: false,
                        },
                    )
                },
                _ => false,
            })
            &&& n == 5 ==> action == ActionModel::RegisterOutbound {
                handle: info.child_handle,
                inner_fd,
            }
            &&& n == 6 ==> action == (match info.remote {
                Some(r) => ActionModel::ReportPeer(r@),
                None => ActionModel::Return(app_fd as int),
            })
            &&& n == 7 ==> action == ActionModel::Return(app_fd as int)
        }),
{
    let n = steps.len() - 1;
    lemma_accept_phase(steps, n);
    assert(accept_fits(steps[n].0, steps[n].2));
}

/// A run of sending on a stream socket, from its start.
pub open spec fn is_send_run(steps: Seq<(SendCall, Fds, Event)>) -> bool {
    &&& steps.len() > 0
    &&& steps[0].0.phase == SendPhase::Start
    &&& forall|i: int|
        0 <= i < steps.len() ==> send_fits((#[trigger] steps[i]).0.phase, steps[i].2)
    &&& forall|i: int|
        0 < i < steps.len() ==> {
            let (c, fds, ev) = steps[i - 1];
            let d = (#[trigger] steps[i]).0;
            d.phase == send_next(c, fds, ev).0 && d.fd == c.fd && d.data == c.data
        }
}

/// Sending on a stream socket, over every run. It needs a handle and the engine; what
/// the application had written is taken, and sent on the handle that the socket had at
/// the start, with the data behind it. The length of the data is returned where all of
/// it was sent, else it fails with the errno of that.
pub proof fn law_sending(steps: Seq<(SendCall, Fds, Event)>)
    requires
        is_send_run(steps),
    ensures
        steps.len() <= 4,
        ({
            let n = steps.len() - 1;
            let (c, fds, ev) = steps[n];
            let action = send_next(c, fds, ev).1;
            let fd = steps[0].0.fd;
            let data = steps[0].0.data@;
            let handle = steps[0].1[fd].handle->Some_0;
            &&& n == 0 ==> action == (if fds.contains_key(fd) && fds[fd].handle is Some {
                ActionModel::GetClient
            } else {
                ActionModel::Fail(107)
            })
            &&& n == 1 ==> (match ev {
                Event::Client(true) => action == ActionModel::TakeWritten { handle },
                Event::Client(false) => action == ActionModel::Fail(5),
                _ => false,
            })
            &&& n == 2 ==> (match ev {
                Event::Written(w) => action == ActionModel::Send { handle, bytes: w@ + data },
                _ => false,
            })
            &&& n == 3 ==> (match ev {
                Event::Sent(Ok(_)) => action == ActionModel::Return(data.len() as int),
                Event::Sent(Err(e)) => action == ActionModel::Fail(e),
                _ => false,
            })
        }),
{
    assert(send_fits(steps[0].0.phase, steps[0].2));
    if steps.len() > 1 {
        assert(send_fits(steps[1].0.phase, steps[1].2));
        assert(steps[1].0.phase is Client);
    }
    if steps.len() > 2 {
        assert(send_fits(steps[2].0.phase, steps[2].2));
        assert(steps[2].0.phase is Taking);
        assert(steps[2].0.data == steps[0].0.data);
    }
    if steps.len() > 3 {
        assert(send_fits(steps[3].0.phase, steps[3].2));
        assert(steps[3].0.phase == SendPhase::Sending);
    }
    if steps.len() > 4 {
        assert(send_fits(steps[4].0.phase, steps[4].2));
        assert(false);
    }
}

/// A run of `close` from its start.
pub open spec fn is_close_run(steps: Seq<(CloseCall, Fds, Event)>) -> bool {
    &&& steps.len() > 0
    &&& steps[0].0.phase == ClosePhase::Start
    &&& forall|i: int|
        0 <= i < steps.len() ==> close_fits((#[trigger] steps[i]).0.phase, steps[i].2)
    &&& forall|i: int|
        0 < i < steps.len() ==> {
            let (c, fds, ev) = steps[i - 1];
            let d = (#[trigger] steps[i]).0;
            d.phase == close_next(c, fds, ev).0 && d.fd == c.fd
        }
}

/// `close`, over every run. The handle that the socket has at the start, if any, is
/// closed where the engine can be reached. Whatever comes of that, the socket is
/// forgotten, and no other, and its own descriptors and handle are released; then 0 is
/// returned. One that is gone meanwhile is closed already.
pub proof fn law_closing(steps: Seq<(CloseCall, Fds, Event)>)
    requires
        is_close_run(steps),
    ensures
        ({
            let n = steps.len() - 1;
            let (c, fds, ev) = steps[n];
            let (_, after, action) = close_next(c, fds, ev);
            let fd = steps[0].0.fd;
            let handle = steps[0].1[fd].handle;
            // The step at which the socket is forgotten.
            let k = if handle is None {
                0int
            } else if steps[1].2->Client_0 {
                2
            } else {
                1
            };
            &&& n <= k + 1
            &&& n == 0 && !fds.contains_key(fd) ==> after == fds && action
                == ActionModel::PassThrough
            &&& n == 0 && fds.contains_key(fd) && handle is Some ==> after == fds && action
                == ActionModel::GetClient
            &&& n == 1 && k == 2 ==> after == fds && action == ActionModel::Close {
                handle: handle->Some_0,
            }
            &&& n == k && fds.contains_key(fd) ==> after == fds.remove(fd) && action
                == ActionModel::Release {
                open: fds[fd].handle,
                app_fd: fds[fd].app_fd,
                inner_fd: fds[fd].inner_fd,
            }
            &&& n == k && n > 0 && !fds.contains_key(fd) ==> after == fds && action
                == ActionModel::Return(0)
            &&& n == k + 1 ==> after == fds && action == ActionModel::Return(0)
        }),
{
    assert(close_fits(steps[0].0.phase, steps[0].2));
    if steps.len() > 1 {
        assert(close_fits(steps[1].0.phase, steps[1].2));
        assert(steps[1].0.fd == steps[0].0.fd);
    }
    if steps.len() > 2 {
        assert(close_fits(steps[2].0.phase, steps[2].2));
        assert(steps[2].0.fd == steps[0].0.fd);
    }
    if steps.len() > 3 {
        assert(close_fits(steps[3].0.phase, steps[3].2));
        assert(steps[3].0.fd == steps[0].0.fd);
    }
    if steps.len() > 4 {
        assert(close_fits(steps[4].0.phase, steps[4].2));
        assert(false);
    }
}

/// Whether an event answers what a call asked for.
pub open spec fn answers(a: ActionModel, ev: Event) -> bool {
    match a {
        ActionModel::GetClient => ev is Client,
        ActionModel::EnsureDgram => ev is Ensured,
        ActionModel::OpenLink { .. } => ev is Opened,
        ActionModel::OpenSocket { .. } => ev is Handle,
        ActionModel::Bind { .. } | ActionModel::Listen { .. } | ActionModel::SendTo { .. } => ev
            is Finished,
        ActionModel::TakeWritten { .. } => ev is Written,
        ActionModel::Send { .. } => ev is Sent,
        ActionModel::AskNonblocking | ActionModel::PeekLink { .. } => ev is Flag,
        ActionModel::WaitLink { .. } => ev is Linked,
        ActionModel::TakeCall { .. } | ActionModel::WaitCall { .. } => ev is Called,
        ActionModel::MakeSocket => ev is Made,
        ActionModel::LookInbox { .. } => ev is Looked,
        ActionModel::Close { .. } | ActionModel::RegisterRecv { .. }
        | ActionModel::RegisterOutbound { .. } | ActionModel::RegisterDgram { .. }
        | ActionModel::HoldWritable { .. } | ActionModel::LetWritable { .. }
        | ActionModel::ReportPeer(_) | ActionModel::WaitReadable
        | ActionModel::Release { .. } => ev is Done,
        _ => false,
    }
}

/// Whether an action is the last of a call.
pub open spec fn is_last(a: ActionModel) -> bool {
    a is PassThrough || a is Return || a is Fail || a is Have || a is Deliver
}

/// Datagram calls go on until they answer: each begins with the start, waits for the
/// answer to what it asked for, and is over exactly when it asks for nothing more.
pub proof fn law_datagram_calls_go_on_until_they_answer(
    ensure: EnsureCall,
    send: DgramSendCall,
    recv: DgramRecvCall,
    fds: Fds,
    dest: Dest,
    configured: Option<String>,
    ev: Event,
    reply: Event,
)
    ensures
        ensure_fits(EnsurePhase::Start, Event::Start),
        sendto_fits(SendToPhase::Start, Event::Start),
        recvfrom_fits(RecvFromPhase::Start, Event::Start),
        ensure_fits(ensure.phase, ev) ==> {
            let (p, _, a) = ensure_next(
                ensure.fd,
                string_view(ensure.local),
                ensure.phase,
                fds,
                ev,
            );
            &&& p == EnsurePhase::Over <==> is_last(a)
            &&& answers(a, reply) ==> ensure_fits(p, reply)
        },
        sendto_fits(send.phase, ev) ==> {
            let (p, a) = sendto_next(send, fds, dest, configured, ev);
            &&& p == SendToPhase::Over <==> is_last(a)
            &&& answers(a, reply) ==> sendto_fits(p, reply)
        },
        recvfrom_fits(recv.phase, ev) ==> {
            let (p, a) = recvfrom_next(recv, fds, ev);
            &&& p == RecvFromPhase::Over <==> is_last(a)
            &&& answers(a, reply) ==> recvfrom_fits(p, reply)
        },
{
}

/// Calls on sockets go on until they answer: each begins with the start, waits for the
/// answer to what it asked for, and is over exactly when it asks for nothing more.
pub proof fn law_calls_go_on_until_they_answer(
    bind: BindCall,
    listen: ListenCall,
    connect: ConnectCall,
    send: SendCall,
    close: CloseCall,
    fds: Fds,
    ev: Event,
    reply: Event,
)
    ensures
        listen_fits(ListenPhase::Start, Event::Start),
        connect_fits(ConnectPhase::Start, Event::Start),
        send_fits(SendPhase::Start, Event::Start),
        close_fits(ClosePhase::Start, Event::Start),
        bind.opening ==> ev is Ensured ==> is_last(bind_next(bind, fds, ev).2),
        bind_next(bind, fds, ev).0 <==> !is_last(bind_next(bind, fds, ev).2),
        listen_fits(listen.phase, ev) ==> {
            let (p, _, a) = listen_next(listen, fds, ev);
            &&& p == ListenPhase::Over <==> is_last(a)
            &&& answers(a, reply) ==> listen_fits(p, reply)
        },
        connect_fits(connect.phase, ev) ==> {
            let (p, _, a) = connect_next(connect, fds, ev);
            &&& p == ConnectPhase::Over <==> is_last(a)
            &&& answers(a, reply) ==> connect_fits(p, reply)
        },
        send_fits(send.phase, ev) ==> {
            let (p, a) = send_next(send, fds, ev);
            &&& p == SendPhase::Over <==> is_last(a)
            &&& answers(a, reply) ==> send_fits(p, reply)
        },
        close_fits(close.phase, ev) ==> {
            let (p, _, a) = close_next(close, fds, ev);
            &&& p == ClosePhase::Over <==> is_last(a)
            &&& answers(a, reply) ==> close_fits(p, reply)
        },
{
}

/// `accept` goes on until it answers, in the same way: once it has a call, it waits for
/// the socket pair of that call.
pub proof fn law_accept_goes_on_until_it_answers(
    c: AcceptCall,
    fds: Fds,
    ev: Event,
    d: AcceptCall,
    reply: Event,
)
    requires
        accept_fits(c, ev),
        d.phase == accept_next(c, fds, ev).0,
        d.phase == AcceptPhase::Making ==> d.info == ev->Called_0,
    ensures
        d.phase == AcceptPhase::Over <==> is_last(accept_next(c, fds, ev).2),
        answers(accept_next(c, fds, ev).2, reply) ==> accept_fits(d, reply),
{
}

/// The numbers of the interface: the family, the option levels, the option of the
/// pending error, and the sizes of addresses.
pub proof fn law_numbers_of_the_interface()
    ensures
        AF_AX25 == 3,
        SOL_AX25 == 257,
        SOL_SOCKET == 1,
        SO_ERROR == 4,
        CALL_BYTES == 9,
        SOCKADDR_LEN == 16,
{
}

/// Of family 3, the types 5 and 2 are stream and datagram sockets, whatever their
/// flags 0x800 and 0x80000; nothing else is served.
pub proof fn law_which_sockets_are_served(domain: i32, ty: i32)
    ensures
        socket_kind(domain, ty) == (if domain != 3 {
            Route::PassThrough
        } else if ty == 5 || ty == 0x805 || ty == 0x80005 || ty == 0x80805 {
            Route::Stream
        } else if ty == 2 || ty == 0x802 || ty == 0x80002 || ty == 0x80802 {
            Route::Dgram
        } else {
            Route::PassThrough
        }),
{
    assert(ty & !(0x80000i32 | 0x800i32) == 5i32 <==> ty == 5 || ty == 0x805 || ty == 0x80005 || ty
        == 0x80805) by (bit_vector);
    assert(ty & !(0x80000i32 | 0x800i32) == 2i32 <==> ty == 2 || ty == 0x802 || ty == 0x80002 || ty
        == 0x80802) by (bit_vector);
}

/// A new socket has its descriptors and its kind, and nothing else.
pub proof fn law_new_sockets_are_bare(app_fd: i32, inner_fd: i32, dgram: bool)
    ensures
        ({
            let s = fresh(app_fd, inner_fd, dgram);
            &&& s.app_fd == app_fd
            &&& s.inner_fd == inner_fd
            &&& s.dgram == dgram
            &&& s.handle is None && s.local is None && s.remote is None
            &&& s.paclen is None && s.window is None
            &&& !s.listening && !s.pidincl
        }),
{
}

/// Changing a socket changes that one and no other, and makes none.
pub proof fn law_one_socket_is_changed(m: Fds, fd: i32, to: FdModel, other: i32)
    ensures
        changed(m, fd, to).dom() =~= m.dom(),
        m.contains_key(fd) ==> changed(m, fd, to)[fd] == to,
        other != fd && m.contains_key(other) ==> changed(m, fd, to)[other] == m[other],
        !m.contains_key(fd) ==> changed(m, fd, to) == m,
{
}

/// Of the options at level 257, 1 sets the window, 10 the packet length, and 8 whether
/// buffers carry the protocol id; each of them sets only that. Others, other levels, and
/// a missing value set nothing.
pub proof fn law_options(s: FdModel, level: i32, name: i32, value: u32)
    ensures
        option_set(s, 257, 1, Some(value)) == (FdModel { window: Some(value), ..s }),
        option_set(s, 257, 10, Some(value)) == (FdModel { paclen: Some(value), ..s }),
        option_set(s, 257, 8, Some(value)) == (FdModel { pidincl: value != 0, ..s }),
        name != 1 && name != 8 && name != 10 ==> option_set(s, level, name, Some(value)) == s,
        level != 257 ==> option_set(s, level, name, Some(value)) == s,
        option_set(s, level, name, None) == s,
{
}

/// What follows a look into an inbox: a datagram is delivered from its sender, without
/// its first byte unless that is wanted, and cut to the room; the end is the end; an
/// unknown handle is `ENOTCONN`; and where there is nothing, one waits, or fails with
/// `EAGAIN` where one must not.
pub proof fn law_what_follows_a_look(
    outcome: DgramOutcome,
    pidincl: bool,
    nonblocking: bool,
    room: nat,
    r: DgramRecv,
)
    requires
        recv_step(outcome, pidincl, nonblocking, room, r),
    ensures
        outcome matches DgramOutcome::Got(d) ==> {
            let skipped = if pidincl || d.data@.len() == 0 {
                0int
            } else {
                1
            };
            let rest = d.data@.len() - skipped;
            &&& r is Deliver
            &&& r->payload@.len() == (if rest <= room {
                rest
            } else {
                room as int
            })
            &&& r->payload@ == d.data@.subrange(skipped, skipped + r->payload@.len())
            &&& d.source is Some ==> r->source@ == d.source->Some_0@
            &&& d.source is None ==> r->source@.len() == 0
        },
        outcome is Eof ==> r is Eof,
        outcome is NoHandle ==> r == DgramRecv::Fail(107),
        outcome is Empty && nonblocking ==> r == DgramRecv::Fail(11),
        outcome is Empty && !nonblocking ==> r is Wait,
{
    match outcome {
        DgramOutcome::Got(d) => {
            let skipped = if pidincl || d.data@.len() == 0 {
                0int
            } else {
                1
            };
            assert(r->payload@ =~= d.data@.subrange(skipped, skipped + r->payload@.len()));
        },
        _ => {},
    }
}

/// What happens to a stream: registering it notes our end and nothing else, data goes
/// behind what is there, what was written leaves from the front, and the end is noted.
pub proof fn law_what_happens_to_a_stream(s: StreamModel, inner: i32, data: Seq<u8>, n: nat)
    requires
        n <= s.data.len(),
    ensures
        s.step(StreamEvent::Registered(inner)) == (StreamModel { inner: Some(inner), ..s }),
        s.step(StreamEvent::Received(data)).data == s.data + data,
        s.step(StreamEvent::Received(data)).inner == s.inner,
        s.step(StreamEvent::Received(data)).eof == s.eof,
        s.data.take(n as int) + s.step(StreamEvent::Written(n)).data == s.data,
        s.step(StreamEvent::Written(n)).inner == s.inner,
        s.step(StreamEvent::Written(n)).eof == s.eof,
        s.step(StreamEvent::Ended).eof,
        s.step(StreamEvent::Ended).data == s.data,
        s.step(StreamEvent::Ended).inner == s.inner,
{
    assert(s.data.take(n as int) + s.data.skip(n as int) =~= s.data);
}

/// An end is among some events.
pub open spec fn has_end(es: Seq<StreamEvent>) -> bool {
    exists|i: int| 0 <= i < es.len() && #[trigger] es[i] is Ended
}

/// A stream that has ended stays so, whatever happens; one that has not ends only by
/// an end.
pub proof fn law_streams_end_once(s: StreamModel, es: Seq<StreamEvent>)
    ensures
        s.run(es).eof <==> s.eof || has_end(es),
    decreases es.len(),
{
    if es.len() > 0 {
        let front = es.drop_last();
        law_streams_end_once(s, front);
        if has_end(front) {
            let i = choose|i: int| 0 <= i < front.len() && #[trigger] front[i] is Ended;
            assert(es[i] is Ended);
        }
        if has_end(es) {
            let i = choose|i: int| 0 <= i < es.len() && #[trigger] es[i] is Ended;
            if i < front.len() {
                assert(front[i] is Ended);
            } else {
                assert(es.last() is Ended);
            }
        }
        if es.last() is Ended {
            assert(es[es.len() - 1] is Ended);
        }
    }
}

/// Our end of the pair is the one that was registered last; where none was, it stays
/// what it was.
pub proof fn law_the_last_registration_counts(s: StreamModel, es: Seq<StreamEvent>, last: int)
    requires
        -1 <= last < es.len(),
        last >= 0 ==> es[last] is Registered,
        forall|j: int| last < j < es.len() ==> !(#[trigger] es[j] is Registered),
    ensures
        s.run(es).inner == (if last < 0 {
            s.inner
        } else {
            Some(es[last]->Registered_0)
        }),
    decreases es.len(),
{
    if es.len() > 0 && last < es.len() - 1 {
        let front = es.drop_last();
        assert(!(es[es.len() - 1] is Registered));
        assert forall|j: int| last < j < front.len() implies !(#[trigger] front[j] is Registered) by {
            assert(!(es[j] is Registered));
        }
        law_the_last_registration_counts(s, front, last);
    }
}

/// What a socket pair is due: nothing while our end is not known; else all that is
/// buffered, and nothing but that; else, where the stream has ended, the shutdown; else
/// nothing.
pub proof fn law_what_a_pair_is_due(s: StreamModel, f: Flush)
    requires
        due(s, f),
    ensures
        s.inner is None ==> f is Nothing,
        s.inner is Some && s.data.len() > 0 ==> f is Write && f->Write_0 == s.inner->Some_0
            && f->Write_1@ == s.data,
        s.inner is Some && s.data.len() == 0 && s.eof ==> f is Shutdown && f->Shutdown_0
            == s.inner->Some_0,
        s.inner is Some && s.data.len() == 0 && !s.eof ==> f is Nothing,
{
}

/// A handle that is not known has an empty stream and an empty inbox, both open and
/// unregistered; one that is known has its own.
pub proof fn law_unknown_handles_are_empty(m: Streams, b: Inboxes, handle: u64)
    ensures
        m.contains_key(handle) ==> stream_of(m, handle) == m[handle],
        !m.contains_key(handle) ==> stream_of(m, handle).data.len() == 0 && stream_of(
            m,
            handle,
        ).inner is None && !stream_of(m, handle).eof,
        b.contains_key(handle) ==> inbox_of(b, handle) == b[handle],
        !b.contains_key(handle) ==> inbox_of(b, handle).queue.len() == 0 && inbox_of(
            b,
            handle,
        ).registered is None && !inbox_of(b, handle).eof,
{
}

/// A look into an inbox gives the first datagram, which then leaves, and no other does;
/// where there is none, whether more can come, and nothing changes. One that is not
/// registered gives nothing and keeps everything.
pub proof fn law_what_a_look_gives(b: InboxModel, r: DgramOutcome)
    requires
        outcome_of(b, r),
    ensures
        b.registered is None ==> r is NoHandle && after_look(b) == b,
        b.registered is Some && b.queue.len() > 0 ==> r is Got && r->Got_0@ == b.queue[0]
            && seq![b.queue[0]] + after_look(b).queue == b.queue && after_look(b).registered
            == b.registered && after_look(b).eof == b.eof,
        b.registered is Some && b.queue.len() == 0 && b.eof ==> r is Eof && after_look(b) == b,
        b.registered is Some && b.queue.len() == 0 && !b.eof ==> r is Empty && after_look(b) == b,
{
    if b.registered is Some && b.queue.len() > 0 {
        assert(seq![b.queue[0]] + b.queue.drop_first() =~= b.queue);
    }
}

/// At the end of the transport every stream and every inbox ends, and keeps what it
/// holds; none is made or forgotten.
pub proof fn law_everything_ends(m: Streams, b: Inboxes, handle: u64)
    ensures
        ended_streams(m).dom() == m.dom(),
        m.contains_key(handle) ==> ended_streams(m)[handle] == (StreamModel {
            eof: true,
            ..m[handle]
        }),
        ended_inboxes(b).dom() == b.dom(),
        b.contains_key(handle) ==> ended_inboxes(b)[handle] == (InboxModel {
            eof: true,
            ..b[handle]
        }),
{
    assert(ended_streams(m).dom() =~= m.dom());
    assert(ended_inboxes(b).dom() =~= b.dom());
}

proof fn lemma_hyphen_at(b: Seq<u8>, i: int, h: int)
    requires
        0 <= i <= h <= b.len(),
        forall|k: int| i <= k < h ==> #[trigger] b[k] != 45,
        h < b.len() ==> b[h] == 45,
    ensures
        hyphen_at(b, i) == h,
    decreases h - i,
{
    if i < h {
        assert(b[i] != 45);
        lemma_hyphen_at(b, i + 1, h);
    }
}

/// The address of a callsign: its network form where the text is up to six letters and
/// digits, and perhaps a hyphen and a number up to 15, with or without a plus sign.
/// Where the number is larger, it is the address that stands for none.
pub proof fn law_addresses_of_callsigns(
    t: Seq<char>,
    letters: Seq<u8>,
    plus: Seq<u8>,
    digits: Seq<u8>,
)
    requires
        letters.len() <= 6,
        call_chars(letters),
        plus.len() == 0 || plus == seq![43u8],
        digits.len() > 0,
        forall|i: int| 0 <= i < digits.len() ==> 48 <= #[trigger] digits[i] <= 57,
    ensures
        encode_utf8(t) == letters ==> best_effort(t) == on_the_air(letters, 0),
        encode_utf8(t) == letters + (seq![45u8] + (plus + digits)) ==> best_effort(t) == (
        if number_value(digits) <= 15 {
            on_the_air(letters, number_value(digits) as int)
        } else {
            seq![64u8, 64, 64, 64, 64, 64, 0]
        }),
{
    let none = Seq::<u8>::empty();
    let n = letters.len() as int;
    law_how_a_callsign_is_encoded(letters, 45, none, plus, digits, none);
    assert forall|k: int| 0 <= k < n implies #[trigger] letters[k] != 45 by {
        assert(call_char(letters[k]));
    }
    lemma_hyphen_at(letters, 0, n);
    assert forall|k: int| 0 <= k < n implies is_alnum(#[trigger] letters[k]) by {
        assert(call_char(letters[k]));
    }
    let b = letters + (seq![45u8] + (plus + digits));
    assert(none + (plus + (digits + none)) =~= plus + digits);
    assert forall|k: int| 0 <= k < n implies #[trigger] b[k] != 45
        && is_alnum(b[k]) by {
        assert(b[k] == letters[k]);
        assert(call_char(letters[k]));
    }
    assert(b[n] == 45);
    lemma_hyphen_at(b, 0, n);
    let rest = b.skip(n + 1);
    assert(rest =~= plus + digits);
    if plus.len() == 0 {
        assert(rest =~= digits);
        assert(48 <= digits[0] <= 57);
    } else {
        assert(rest[0] == 43);
        assert(rest.drop_first() =~= digits);
    }
    assert(without_plus(rest) == digits);
    assert(is_number(rest));
}

/// Any other text has the address that stands for none: one with another character
/// before its hyphen, one with more than six before it, and one with something else
/// than a number behind it.
pub proof fn law_other_text_has_no_address(t: Seq<char>, h: int, k: int)
    requires
        ({
            let b = encode_utf8(t);
            &&& 0 <= h <= b.len()
            &&& forall|i: int| 0 <= i < h ==> #[trigger] b[i] != 45
            &&& h < b.len() ==> b[h] == 45
            &&& {
                ||| 0 <= k < h && !call_char(b[k])
                ||| h > 6
                ||| h + 1 == b.len()
                ||| h + 2 == b.len() && b[h + 1] == 43
                ||| h < k < b.len() && !(48 <= b[k] <= 57) && !(k == h + 1 && b[k] == 43)
            }
        }),
    ensures
        best_effort(t) == seq![64u8, 64, 64, 64, 64, 64, 0],
{
    let b = encode_utf8(t);
    lemma_hyphen_at(b, 0, h);
    if 0 <= k < h && !call_char(b[k]) {
        assert(!is_alnum(b[k]));
    } else if h <= 6 {
        let rest = b.skip(h + 1);
        if h < k < b.len() && !(48 <= b[k] <= 57) && !(k == h + 1 && b[k] == 43) {
            let d = without_plus(rest);
            assert(rest[k - h - 1] == b[k]);
            if rest.len() > 0 && rest[0] == 43 {
                assert(d[k - h - 2] == b[k]);
            } else {
                assert(d[k - h - 1] == b[k]);
            }
        }
        assert(!is_number(rest));
    }
}

/// What an action carries is what it asks for, each value in its own place.
pub proof fn law_actions_are_taken_as_they_are(a: Action)
    ensures
        a matches Action::Return(v) ==> a@ == ActionModel::Return(v as int),
        a matches Action::Fail(e) ==> a@ == ActionModel::Fail(e),
        a matches Action::Have(h) ==> a@ == ActionModel::Have(h),
        a matches Action::ReportPeer(c) ==> a@ == ActionModel::ReportPeer(c@),
        a is Deliver ==> a@ is Deliver && a@->payload == a->payload@ && a@->source == a->source@,
        a is OpenLink ==> a@ is OpenLink && a@->OpenLink_local == a->OpenLink_local@
            && a@->OpenLink_remote == a->OpenLink_remote@,
        a is OpenSocket ==> a@ is OpenSocket && a@->dgram == a->dgram,
        a is Bind ==> a@ is Bind && a@->Bind_handle == a->Bind_handle && a@->Bind_local
            == a->Bind_local@,
        a is Listen ==> a@ is Listen && a@->Listen_handle == a->Listen_handle,
        a is SendTo ==> a@ is SendTo && a@->SendTo_handle == a->SendTo_handle && a@->SendTo_remote
            == a->SendTo_remote@ && a@->SendTo_local == a->SendTo_local@ && a@->wire == a->wire@,
        a is TakeWritten ==> a@ is TakeWritten && a@->TakeWritten_handle == a->TakeWritten_handle,
        a is Send ==> a@ is Send && a@->Send_handle == a->Send_handle && a@->bytes == a->bytes@,
        a is Close ==> a@ is Close && a@->Close_handle == a->Close_handle,
        a is RegisterRecv ==> a@ is RegisterRecv && a@->RegisterRecv_handle
            == a->RegisterRecv_handle && a@->RegisterRecv_inner_fd == a->RegisterRecv_inner_fd,
        a is RegisterOutbound ==> a@ is RegisterOutbound && a@->RegisterOutbound_handle
            == a->RegisterOutbound_handle && a@->RegisterOutbound_inner_fd
            == a->RegisterOutbound_inner_fd,
        a is RegisterDgram ==> a@ is RegisterDgram && a@->RegisterDgram_handle
            == a->RegisterDgram_handle && a@->RegisterDgram_app_fd == a->RegisterDgram_app_fd
            && a@->RegisterDgram_inner_fd == a->RegisterDgram_inner_fd,
        a is HoldWritable ==> a@ is HoldWritable && a@->HoldWritable_handle
            == a->HoldWritable_handle && a@->HoldWritable_app_fd == a->HoldWritable_app_fd
            && a@->HoldWritable_inner_fd == a->HoldWritable_inner_fd,
        a is PeekLink ==> a@ is PeekLink && a@->PeekLink_handle == a->PeekLink_handle,
        a is LetWritable ==> a@ is LetWritable && a@->LetWritable_handle == a->LetWritable_handle,
        a is WaitLink ==> a@ is WaitLink && a@->WaitLink_handle == a->WaitLink_handle && a@->limit
            == a->limit,
        a is TakeCall ==> a@ is TakeCall && a@->TakeCall_listener == a->TakeCall_listener,
        a is WaitCall ==> a@ is WaitCall && a@->WaitCall_listener == a->WaitCall_listener,
        a is LookInbox ==> a@ is LookInbox && a@->LookInbox_handle == a->LookInbox_handle,
        a is Release ==> a@ is Release && a@->open == a->open && a@->Release_app_fd
            == a->Release_app_fd && a@->Release_inner_fd == a->Release_inner_fd,
        a is PassThrough <==> a@ is PassThrough,
        a is GetClient <==> a@ is GetClient,
        a is EnsureDgram <==> a@ is EnsureDgram,
        a is AskNonblocking <==> a@ is AskNonblocking,
        a is MakeSocket <==> a@ is MakeSocket,
        a is WaitReadable <==> a@ is WaitReadable,
{
}

/// The values of sockets, datagrams and their queues are their own, field by field.
pub proof fn law_values_of_sockets(s: FdState, d: Datagram, o: Outgoing, q: Seq<Datagram>, i: int)
    ensures
        s@.app_fd == s.app_fd,
        s@.inner_fd == s.inner_fd,
        s@.handle == s.handle,
        s@.local is Some <==> s.local is Some,
        s.local matches Some(c) ==> s@.local == Some(c@),
        s@.remote is Some <==> s.remote is Some,
        s.remote matches Some(c) ==> s@.remote == Some(c@),
        s@.listening == s.listening,
        s@.paclen == s.paclen,
        s@.window == s.window,
        s@.dgram == s.dgram,
        s@.pidincl == s.pidincl,
        d@.data == d.data@,
        d@.source is Some <==> d.source is Some,
        d.source matches Some(c) ==> d@.source == Some(c@),
        o@.remote == o.remote@,
        o@.local == o.local@,
        o@.wire == o.wire@,
        datagrams_view(q).len() == q.len(),
        0 <= i < q.len() ==> datagrams_view(q)[i] == q[i]@,
{
}

} // verus!
