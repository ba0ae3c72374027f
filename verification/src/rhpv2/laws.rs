//! What the client promises of connects and inbound calls, told case by case.

use vstd::prelude::*;

use super::client::{
    accept_view, all_failed, armed, connect_outcome, dequeued, error_cleared, failed, next_call,
    pending_error, queue_of, queued, step_view, time_is_up, AcceptInfo, AcceptModel, ConnPhase,
    FullModel, Phases, Queues,
};
use crate::rhp::errors::errno_of;
use crate::rhp::json::JsonModel;
use crate::rhp::laws::{law_what_a_frame_says, law_what_a_push_says, text_at, unsigned_at};
use crate::rhp::messages::frame_of;

verus! {

/// What a caller learns of a connect: nothing of a handle that is not followed or
/// still pending, success once its link is up, and otherwise the errno it failed
/// with.
pub proof fn law_what_a_connect_tells(m: Phases, handle: u64, errno: i32)
    ensures
        !m.contains_key(handle) ==> connect_outcome(m, handle) is None && pending_error(m, handle)
            == 0,
        m.contains_key(handle) && m[handle] == ConnPhase::Pending ==> connect_outcome(m, handle)
            is None && pending_error(m, handle) == 0,
        m.contains_key(handle) && m[handle] == ConnPhase::Connected ==> connect_outcome(m, handle)
            == Some(Ok::<(), i32>(())) && pending_error(m, handle) == 0,
        m.contains_key(handle) && m[handle] == ConnPhase::Failed(errno) ==> connect_outcome(
            m,
            handle,
        ) == Some(Err::<(), i32>(errno)) && pending_error(m, handle) == errno,
{
}

/// What is done to one connect is done to no other: following it, failing it and
/// reading its error leave the others as they are, and so does the end of the
/// transport with those that are decided.
pub proof fn law_connects_are_apart(m: Phases, handle: u64, other: u64, errno: i32)
    requires
        other != handle,
    ensures
        connect_outcome(armed(m, handle), other) == connect_outcome(m, other),
        connect_outcome(failed(m, handle, errno), other) == connect_outcome(m, other),
        connect_outcome(error_cleared(m, handle), other) == connect_outcome(m, other),
        armed(m, handle).contains_key(other) == m.contains_key(other),
        armed(m, handle).contains_key(handle),
        failed(m, handle, errno).dom() == m.dom(),
        error_cleared(m, handle).dom() == m.dom(),
        all_failed(m, errno).dom() == m.dom(),
        connect_outcome(m, other) is Some ==> connect_outcome(all_failed(m, errno), other)
            == connect_outcome(m, other),
        m.contains_key(other) && connect_outcome(m, other) is None ==> connect_outcome(
            all_failed(m, errno),
            other,
        ) == Some(Err::<(), i32>(errno)),
{
    assert(failed(m, handle, errno).dom() =~= m.dom());
    assert(error_cleared(m, handle).dom() =~= m.dom());
    assert(all_failed(m, errno).dom() =~= m.dom());
}

/// Only a connect that is still pending can fail, and it keeps the errno that it
/// failed with until that is read; reading it does nothing to a connect that has not
/// failed.
pub proof fn law_only_a_pending_connect_fails(m: Phases, handle: u64, errno: i32)
    ensures
        connect_outcome(m, handle) is Some ==> connect_outcome(failed(m, handle, errno), handle)
            == connect_outcome(m, handle),
        !m.contains_key(handle) ==> connect_outcome(failed(m, handle, errno), handle) is None,
        m.contains_key(handle) && m[handle] == ConnPhase::Pending ==> pending_error(
            failed(m, handle, errno),
            handle,
        ) == errno,
        pending_error(m, handle) == 0 ==> error_cleared(m, handle) == m,
        pending_error(m, handle) != 0 ==> connect_outcome(error_cleared(m, handle), handle) == Some(
            Ok::<(), i32>(()),
        ),
        pending_error(error_cleared(m, handle), handle) == 0,
        connect_outcome(armed(m, handle), handle) == connect_outcome(m, handle),
{
}

/// What each push does, told by its members: a status with the bit 2 in it makes its
/// handle connected; a close fails the connect of its handle if it is pending, with
/// the errno of its code, or with 111 where it gives none; an accept puts its child at
/// the end of its listener's queue. Nothing else changes, and other pushes change
/// nothing.
pub proof fn law_what_a_push_does(
    c: FullModel,
    m: Map<Seq<char>, JsonModel>,
    handle: u64,
    other: u64,
)
    requires
        unsigned_at(m, "handle"@) == Some(handle),
        other != handle,
    ensures
        ({
            let f = frame_of(m);
            let after = c.after_push(f);
            let typ = text_at(m, "type"@);
            &&& after.base == c.base
            &&& queue_of(after.accepts, other) == queue_of(c.accepts, other)
            &&& typ == Some("status"@) && f.status_flags() & 2 != 0 ==> after.conns
                == c.conns.insert(handle, ConnPhase::Connected) && after.accepts == c.accepts
            &&& typ == Some("status"@) && f.status_flags() & 2 == 0 ==> after == c
            &&& typ == Some("close"@) && c.conns.contains_key(handle) && c.conns[handle]
                == ConnPhase::Pending ==> after.conns == c.conns.insert(
                handle,
                ConnPhase::Failed(
                    if f.errcode() == 0 {
                        111
                    } else {
                        errno_of(f.errcode() as int)
                    },
                ),
            ) && after.accepts == c.accepts
            &&& typ == Some("close"@) && !(c.conns.contains_key(handle) && c.conns[handle]
                == ConnPhase::Pending) ==> after == c
            &&& typ == Some("accept"@) && unsigned_at(m, "child"@) is Some ==> after.conns
                == c.conns && queue_of(after.accepts, handle) == queue_of(c.accepts, handle).push(
                AcceptModel {
                    child_handle: unsigned_at(m, "child"@)->Some_0,
                    remote: text_at(m, "remote"@),
                    local: text_at(m, "local"@),
                },
            )
            &&& typ == Some("accept"@) && unsigned_at(m, "child"@) is None ==> after == c
            &&& typ != Some("status"@) && typ != Some("close"@) && typ != Some("accept"@)
                ==> after == c
        }),
{
    law_what_a_frame_says(m);
    law_what_a_push_says(m);
    reveal_strlit("recv");
    reveal_strlit("status");
    reveal_strlit("close");
    reveal_strlit("accept");
    assert("status"@[0] == 's' && "accept"@[0] == 'a');
    assert("close"@.len() == 5 && "recv"@.len() == 4 && "status"@.len() == 6 && "accept"@.len()
        == 6);
}

/// A push without a handle changes nothing.
pub proof fn law_a_push_needs_a_handle(c: FullModel, m: Map<Seq<char>, JsonModel>)
    requires
        unsigned_at(m, "handle"@) is None,
    ensures
        c.after_push(frame_of(m)) == c,
{
    law_what_a_frame_says(m);
    law_what_a_push_says(m);
}

/// A call is taken once: the first that waits is given, the others move up, and
/// where none waits none is given.
pub proof fn law_calls_are_taken_once(m: Queues, listener: u64, other: u64)
    ensures
        !m.contains_key(listener) ==> queue_of(m, listener).len() == 0,
        m.contains_key(listener) ==> queue_of(m, listener) == m[listener],
        queue_of(m, listener).len() == 0 ==> next_call(m, listener) is None && dequeued(
            m,
            listener,
        ) == m,
        queue_of(m, listener).len() > 0 ==> next_call(m, listener) == Some(
            queue_of(m, listener)[0],
        ) && queue_of(dequeued(m, listener), listener) == queue_of(m, listener).skip(1),
        other != listener ==> queue_of(dequeued(m, listener), other) == queue_of(m, other),
{
    if queue_of(m, listener).len() > 0 {
        assert(queue_of(m, listener).drop_first() =~= queue_of(m, listener).skip(1));
    }
}

/// One look of a caller that waits: what was decided is told at once, whatever the
/// time; then the end of the transport counts, and then the limit. A call that waits
/// is given even at the end.
pub proof fn law_what_a_wait_tells(c: FullModel, handle: u64, limit: Option<u128>, elapsed: u128)
    ensures
        ({
            let up = time_is_up(limit, elapsed);
            let step = c.connect_step(handle, up);
            let call = c.accept_step(handle, up);
            &&& limit is None ==> !up
            &&& limit matches Some(d) ==> (up <==> d <= elapsed)
            &&& connect_outcome(c.conns, handle) is Some ==> step == connect_outcome(
                c.conns,
                handle,
            )
            &&& connect_outcome(c.conns, handle) is None && c.base.closed ==> step == Some(
                Err::<(), i32>(104),
            )
            &&& connect_outcome(c.conns, handle) is None && !c.base.closed && up ==> step == Some(
                Err::<(), i32>(110),
            )
            &&& connect_outcome(c.conns, handle) is None && !c.base.closed && !up ==> step is None
            &&& next_call(c.accepts, handle) is Some ==> call == Some(next_call(c.accepts, handle))
            &&& next_call(c.accepts, handle) is None && (c.base.closed || up) ==> call == Some(
                None::<AcceptModel>,
            )
            &&& next_call(c.accepts, handle) is None && !c.base.closed && !up ==> call is None
        }),
{
}

/// Making and settling requests does nothing to connects and calls. Closing a handle
/// forgets its connect and its calls, and no others. The end of the transport fails the
/// pending connects with 104, and leaves those that are decided and the calls.
pub proof fn law_requests_leave_connects_alone(c: FullModel, id: u64, handle: u64, other: u64)
    ensures
        c.after_request().conns == c.conns,
        c.after_request().accepts == c.accepts,
        c.after_request().base == c.base.after_request(),
        c.without(id).conns == c.conns,
        c.without(id).accepts == c.accepts,
        c.without(id).base == c.base.without(id),
        c.forgotten(handle).base == c.base,
        c.forgotten(handle).conns == c.conns.remove(handle),
        c.forgotten(handle).accepts == c.accepts.remove(handle),
        c.ended().accepts == c.accepts,
        c.ended().base == c.base.ended(),
        c.ended().conns.dom() == c.conns.dom(),
        c.conns.contains_key(handle) && c.conns[handle] == ConnPhase::Pending ==> connect_outcome(
            c.ended().conns,
            handle,
        ) == Some(Err::<(), i32>(104)),
        connect_outcome(c.conns, handle) is Some ==> connect_outcome(c.ended().conns, handle)
            == connect_outcome(c.conns, handle),
        queue_of(c.forgotten(handle).accepts, other) == (if other == handle {
            Seq::empty()
        } else {
            queue_of(c.accepts, other)
        }),
{
    assert(c.ended().conns.dom() =~= c.conns.dom());
}

/// One more call goes to the end of its listener's queue, and to no other.
pub proof fn law_calls_queue_up(m: Queues, listener: u64, info: AcceptModel, other: u64)
    ensures
        queue_of(queued(m, listener, info), listener) == queue_of(m, listener).push(info),
        other != listener ==> queue_of(queued(m, listener, info), other) == queue_of(m, other),
        queued(m, listener, info).dom() == m.dom().insert(listener),
{
}

/// Optional values are taken as they are.
pub proof fn law_views_of_calls(info: AcceptInfo)
    ensures
        accept_view(None) is None,
        accept_view(Some(info)) == Some(info@),
        step_view(None) is None,
        step_view(Some(None)) == Some(None::<AcceptModel>),
        step_view(Some(Some(info))) == Some(Some(info@)),
        info@.child_handle == info.child_handle,
        info.remote is None <==> info@.remote is None,
        info.remote matches Some(t) ==> info@.remote == Some(t@),
        info.local is None <==> info@.local is None,
        info.local matches Some(t) ==> info@.local == Some(t@),
{
}

} // verus!
