//! What the protocol promises, told from outside: the text of each request, what a
//! frame says, and what becomes of replies and pushes.

use vstd::prelude::*;
use vstd::utf8::encode_utf8;

use super::client::{
    chunks, handle_result, is_reply_step, is_request, open_request, payload_of, plain_result,
    push_of, push_view, result_view, send_fields, ClientModel, Outcome, Push, PushModel, Request,
    RhpError, RhpErrorModel, REPLY_LIMIT,
};
use super::codec::{law_wire_round_trip, wire_bytes, wire_string};
use super::errors::name_of;
use super::framing::{frame_bytes, next_frame, FrameError, MAX_FRAME};
use super::json::{
    json_escape, json_escapes, json_string, lemma_members_push, members_text, object_text, plain,
    FieldModel, Fields, JsonModel,
};
use super::messages::{
    frame_of, number_field, optional_field, string_view, text_field, text_of, text_view,
    unsigned_of, AuthReq, BindReq, CloseReq, Frame, ListenReq, OpenReq, SendReq, SendToReq,
    SocketReq, OPEN_FLAG_ACTIVE, OPEN_FLAG_PASSIVE,
};
use crate::rhpv2::client::sendto_fields;
use crate::text::{
    all_digits, decimal, digits_value, lemma_decimal, same_ignoring_case, signed_decimal, upper,
    upper_text,
};

verus! {

/// A text that needs no escapes is written as it is, in quotes.
proof fn lemma_plain_string(s: Seq<char>)
    requires
        plain(s),
    ensures
        json_string(s) == seq!['"'] + s + seq!['"'],
        json_escapes(s) == s,
    decreases s.len(),
{
    if s.len() > 0 {
        assert(plain(s.drop_last())) by {
            assert forall|i: int| 0 <= i < s.drop_last().len() implies 0x20 <= (
            #[trigger] s.drop_last()[i]) as u32 <= 0x7E && s.drop_last()[i] != '"'
                && s.drop_last()[i] != '\\' by {
                assert(s.drop_last()[i] == s[i]);
            }
        }
        lemma_plain_string(s.drop_last());
        assert(json_escape(s.last()) == seq![s.last()]) by {
            assert(s.last() == s[s.len() - 1]);
        }
        assert(json_escapes(s) =~= s);
    }
}

/// The opening of a member: a comma and its key.
proof fn lemma_text_step(
    front: Fields,
    key: Seq<char>,
    value: Seq<char>,
    text: Seq<char>,
    opening: Seq<char>,
)
    requires
        front.len() > 0,
        seq!['{'] + members_text(front) == text,
        opening == seq![',', '"'] + key + seq!['"', ':'],
    ensures
        seq!['{'] + members_text(front + text_field(key, value)) == text + opening + json_string(
            value,
        ),
{
    let f = (key, FieldModel::Text(value));
    lemma_members_push(front, f);
    assert(front + text_field(key, value) =~= front.push(f));
    assert(seq!['{'] + members_text(front.push(f)) =~= text + opening + json_string(value));
}

/// The text of an object with one more number member.
proof fn lemma_number_step(
    front: Fields,
    key: Seq<char>,
    value: u64,
    text: Seq<char>,
    opening: Seq<char>,
)
    requires
        front.len() > 0,
        seq!['{'] + members_text(front) == text,
        opening == seq![',', '"'] + key + seq!['"', ':'],
    ensures
        seq!['{'] + members_text(front + number_field(key, value)) == text + opening + decimal(
            value as nat,
        ),
{
    let f = (key, FieldModel::Number(value));
    lemma_members_push(front, f);
    assert(front + number_field(key, value) =~= front.push(f));
    assert(seq!['{'] + members_text(front.push(f)) =~= text + opening + decimal(value as nat));
}

/// The text of an object with one more member whose value is known.
proof fn lemma_known_step(
    front: Fields,
    key: Seq<char>,
    value: Seq<char>,
    text: Seq<char>,
    member: Seq<char>,
)
    requires
        front.len() > 0,
        plain(value),
        seq!['{'] + members_text(front) == text,
        member == seq![',', '"'] + key + seq!['"', ':', '"'] + value + seq!['"'],
    ensures
        seq!['{'] + members_text(front + text_field(key, value)) == text + member,
{
    lemma_text_step(front, key, value, text, seq![',', '"'] + key + seq!['"', ':']);
    lemma_plain_string(value);
    assert(text + (seq![',', '"'] + key + seq!['"', ':']) + json_string(value) =~= text + member);
}

/// The text of a request's first two members.
proof fn lemma_head_text(typ: Seq<char>, id: u64, head: Seq<char>)
    requires
        plain(typ),
        head == "{\"type\":\""@ + typ + "\",\"id\":"@,
    ensures
        seq!['{'] + members_text(text_field("type"@, typ) + number_field("id"@, id)) == head
            + decimal(id as nat),
{
    reveal_strlit("type");
    reveal_strlit("id");
    reveal_strlit("{\"type\":\"");
    reveal_strlit("\",\"id\":");
    lemma_plain_string(typ);
    let f = text_field("type"@, typ);
    let t = seq!['{'] + members_text(f);
    assert(t =~= "{\"type\":\""@ + typ + seq!['"']);
    let opening = seq![',', '"'] + "id"@ + seq!['"', ':'];
    lemma_number_step(f, "id"@, id, t, opening);
    assert(t + opening =~= head);
}

/// The request that connects to a station: an `open` of the family "ax25" in the
/// mode "stream", from the local to the remote callsign, with the flags 128, and
/// nothing else.
pub proof fn law_connect_request(r: Request, before: ClientModel, local: &str, remote: &str)
    requires
        is_request(r, before, open_request(r.id, local, Some(remote), OPEN_FLAG_ACTIVE).fields()),
    ensures
        r.id == before.issued + 1,
        r.bytes@ == encode_utf8(
            "{\"type\":\"open\",\"id\":"@
                + decimal(r.id as nat)
                + ",\"pfam\":\"ax25\""@
                + ",\"mode\":\"stream\""@
                + ",\"local\":"@
                + json_string(local@)
                + ",\"remote\":"@
                + json_string(remote@)
                + ",\"flags\":128}"@,
        ),
{
    let head = "{\"type\":\"open\",\"id\":"@;
    lemma_literals();
    let f1 = text_field("type"@, "open"@) + number_field("id"@, r.id);
    let t1 = head + decimal(r.id as nat);
    lemma_head_text("open"@, r.id, head);
    let f2 = f1 + text_field("pfam"@, "ax25"@);
    let t2 = t1 + ",\"pfam\":\"ax25\""@;
    lemma_known_step(f1, "pfam"@, "ax25"@, t1, ",\"pfam\":\"ax25\""@);
    let f3 = f2 + text_field("mode"@, "stream"@);
    let t3 = t2 + ",\"mode\":\"stream\""@;
    lemma_known_step(f2, "mode"@, "stream"@, t2, ",\"mode\":\"stream\""@);
    let f4 = f3 + text_field("local"@, local@);
    let t4 = t3 + ",\"local\":"@ + json_string(local@);
    lemma_text_step(f3, "local"@, local@, t3, ",\"local\":"@);
    let f5 = f4 + text_field("remote"@, remote@);
    let t5 = t4 + ",\"remote\":"@ + json_string(remote@);
    lemma_text_step(f4, "remote"@, remote@, t4, ",\"remote\":"@);
    lemma_number_step(f5, "flags"@, 128, t5, ",\"flags\":"@);
    let fields = f5 + number_field("flags"@, 128);
    assert(open_request(r.id, local, Some(remote), OPEN_FLAG_ACTIVE).fields() =~= fields);
    assert(object_text(fields) =~= t5 + ",\"flags\":128}"@);
}

/// The request that opens a listener: the same without a remote callsign, and with
/// the flags 0.
pub proof fn law_open_listen_request(r: Request, before: ClientModel, local: &str)
    requires
        is_request(r, before, open_request(r.id, local, None, OPEN_FLAG_PASSIVE).fields()),
    ensures
        r.id == before.issued + 1,
        r.bytes@ == encode_utf8(
            "{\"type\":\"open\",\"id\":"@
                + decimal(r.id as nat)
                + ",\"pfam\":\"ax25\""@
                + ",\"mode\":\"stream\""@
                + ",\"local\":"@
                + json_string(local@)
                + ",\"flags\":0}"@,
        ),
{
    let head = "{\"type\":\"open\",\"id\":"@;
    lemma_literals();
    let f1 = text_field("type"@, "open"@) + number_field("id"@, r.id);
    let t1 = head + decimal(r.id as nat);
    lemma_head_text("open"@, r.id, head);
    let f2 = f1 + text_field("pfam"@, "ax25"@);
    let t2 = t1 + ",\"pfam\":\"ax25\""@;
    lemma_known_step(f1, "pfam"@, "ax25"@, t1, ",\"pfam\":\"ax25\""@);
    let f3 = f2 + text_field("mode"@, "stream"@);
    let t3 = t2 + ",\"mode\":\"stream\""@;
    lemma_known_step(f2, "mode"@, "stream"@, t2, ",\"mode\":\"stream\""@);
    let f4 = f3 + text_field("local"@, local@);
    let t4 = t3 + ",\"local\":"@ + json_string(local@);
    lemma_text_step(f3, "local"@, local@, t3, ",\"local\":"@);
    lemma_number_step(f4, "flags"@, 0, t4, ",\"flags\":"@);
    let fields = f4 + number_field("flags"@, 0);
    assert(open_request(r.id, local, None, OPEN_FLAG_PASSIVE).fields() =~= fields);
    assert(object_text(fields) =~= t4 + ",\"flags\":0}"@);
}

/// The request that sends data: the handle, and each byte as the code point of that
/// number.
pub proof fn law_send_request(r: Request, before: ClientModel, handle: u64, data: Seq<u8>)
    requires
        is_request(r, before, send_fields(r.id, handle, data)),
    ensures
        r.id == before.issued + 1,
        r.bytes@ == encode_utf8(
            "{\"type\":\"send\",\"id\":"@
                + decimal(r.id as nat)
                + ",\"handle\":"@
                + decimal(handle as nat)
                + ",\"data\":"@
                + json_string(Seq::new(data.len(), |i: int| data[i] as char))
                + "}"@,
        ),
{
    let head = "{\"type\":\"send\",\"id\":"@;
    lemma_literals();
    let f1 = text_field("type"@, "send"@) + number_field("id"@, r.id);
    let t1 = head + decimal(r.id as nat);
    lemma_head_text("send"@, r.id, head);
    let f2 = f1 + number_field("handle"@, handle);
    let t2 = t1 + ",\"handle\":"@ + decimal(handle as nat);
    lemma_number_step(f1, "handle"@, handle, t1, ",\"handle\":"@);
    let f3 = f2 + text_field("data"@, Seq::new(data.len(), |i: int| data[i] as char));
    let t3 = t2 + ",\"data\":"@ + json_string(Seq::new(data.len(), |i: int| data[i] as char));
    lemma_text_step(f2, "data"@, Seq::new(data.len(), |i: int| data[i] as char), t2, ",\"data\":"@);
    let fields = f3;
    assert(send_fields(r.id, handle, data) =~= fields);
    assert(object_text(fields) =~= t3 + "}"@);
}

/// The request that sends a datagram: the handle, the destination, the source, and
/// each byte of the payload as the code point of that number.
pub proof fn law_sendto_request(r: Request, before: ClientModel, handle: u64, remote: Seq<char>, local: Seq<char>, data: Seq<u8>)
    requires
        is_request(r, before, sendto_fields(r.id, handle, remote, local, data)),
    ensures
        r.id == before.issued + 1,
        r.bytes@ == encode_utf8(
            "{\"type\":\"sendto\",\"id\":"@
                + decimal(r.id as nat)
                + ",\"handle\":"@
                + decimal(handle as nat)
                + ",\"remote\":"@
                + json_string(remote)
                + ",\"local\":"@
                + json_string(local)
                + ",\"data\":"@
                + json_string(Seq::new(data.len(), |i: int| data[i] as char))
                + "}"@,
        ),
{
    let head = "{\"type\":\"sendto\",\"id\":"@;
    lemma_literals();
    let f1 = text_field("type"@, "sendto"@) + number_field("id"@, r.id);
    let t1 = head + decimal(r.id as nat);
    lemma_head_text("sendto"@, r.id, head);
    let f2 = f1 + number_field("handle"@, handle);
    let t2 = t1 + ",\"handle\":"@ + decimal(handle as nat);
    lemma_number_step(f1, "handle"@, handle, t1, ",\"handle\":"@);
    let f3 = f2 + text_field("remote"@, remote);
    let t3 = t2 + ",\"remote\":"@ + json_string(remote);
    lemma_text_step(f2, "remote"@, remote, t2, ",\"remote\":"@);
    let f4 = f3 + text_field("local"@, local);
    let t4 = t3 + ",\"local\":"@ + json_string(local);
    lemma_text_step(f3, "local"@, local, t3, ",\"local\":"@);
    let f5 = f4 + text_field("data"@, Seq::new(data.len(), |i: int| data[i] as char));
    let t5 = t4 + ",\"data\":"@ + json_string(Seq::new(data.len(), |i: int| data[i] as char));
    lemma_text_step(f4, "data"@, Seq::new(data.len(), |i: int| data[i] as char), t4, ",\"data\":"@);
    let fields = f5;
    assert(sendto_fields(r.id, handle, remote, local, data) =~= fields);
    assert(object_text(fields) =~= t5 + "}"@);
}

/// The request that closes a handle.
pub proof fn law_close_request(r: Request, before: ClientModel, handle: u64)
    requires
        is_request(r, before, (CloseReq { typ: "close", id: r.id, handle }).fields()),
    ensures
        r.id == before.issued + 1,
        r.bytes@ == encode_utf8(
            "{\"type\":\"close\",\"id\":"@
                + decimal(r.id as nat)
                + ",\"handle\":"@
                + decimal(handle as nat)
                + "}"@,
        ),
{
    let head = "{\"type\":\"close\",\"id\":"@;
    lemma_literals();
    let f1 = text_field("type"@, "close"@) + number_field("id"@, r.id);
    let t1 = head + decimal(r.id as nat);
    lemma_head_text("close"@, r.id, head);
    let f2 = f1 + number_field("handle"@, handle);
    let t2 = t1 + ",\"handle\":"@ + decimal(handle as nat);
    lemma_number_step(f1, "handle"@, handle, t1, ",\"handle\":"@);
    let fields = f2;
    assert((CloseReq { typ: "close", id: r.id, handle }).fields() =~= fields);
    assert(object_text(fields) =~= t2 + "}"@);
}

/// The request that allocates a handle for streams.
pub proof fn law_stream_socket_request(r: Request, before: ClientModel)
    requires
        is_request(r, before, (SocketReq { typ: "socket", id: r.id, pfam: "ax25", mode: "stream" }).fields()),
    ensures
        r.id == before.issued + 1,
        r.bytes@ == encode_utf8(
            "{\"type\":\"socket\",\"id\":"@
                + decimal(r.id as nat)
                + ",\"pfam\":\"ax25\""@
                + ",\"mode\":\"stream\""@
                + "}"@,
        ),
{
    let head = "{\"type\":\"socket\",\"id\":"@;
    lemma_literals();
    let f1 = text_field("type"@, "socket"@) + number_field("id"@, r.id);
    let t1 = head + decimal(r.id as nat);
    lemma_head_text("socket"@, r.id, head);
    let f2 = f1 + text_field("pfam"@, "ax25"@);
    let t2 = t1 + ",\"pfam\":\"ax25\""@;
    lemma_known_step(f1, "pfam"@, "ax25"@, t1, ",\"pfam\":\"ax25\""@);
    let f3 = f2 + text_field("mode"@, "stream"@);
    let t3 = t2 + ",\"mode\":\"stream\""@;
    lemma_known_step(f2, "mode"@, "stream"@, t2, ",\"mode\":\"stream\""@);
    let fields = f3;
    assert((SocketReq { typ: "socket", id: r.id, pfam: "ax25", mode: "stream" }).fields() =~= fields);
    assert(object_text(fields) =~= t3 + "}"@);
}

/// The request that allocates a handle for datagrams.
pub proof fn law_datagram_socket_request(r: Request, before: ClientModel)
    requires
        is_request(r, before, (SocketReq { typ: "socket", id: r.id, pfam: "ax25", mode: "custom" }).fields()),
    ensures
        r.id == before.issued + 1,
        r.bytes@ == encode_utf8(
            "{\"type\":\"socket\",\"id\":"@
                + decimal(r.id as nat)
                + ",\"pfam\":\"ax25\""@
                + ",\"mode\":\"custom\""@
                + "}"@,
        ),
{
    let head = "{\"type\":\"socket\",\"id\":"@;
    lemma_literals();
    let f1 = text_field("type"@, "socket"@) + number_field("id"@, r.id);
    let t1 = head + decimal(r.id as nat);
    lemma_head_text("socket"@, r.id, head);
    let f2 = f1 + text_field("pfam"@, "ax25"@);
    let t2 = t1 + ",\"pfam\":\"ax25\""@;
    lemma_known_step(f1, "pfam"@, "ax25"@, t1, ",\"pfam\":\"ax25\""@);
    let f3 = f2 + text_field("mode"@, "custom"@);
    let t3 = t2 + ",\"mode\":\"custom\""@;
    lemma_known_step(f2, "mode"@, "custom"@, t2, ",\"mode\":\"custom\""@);
    let fields = f3;
    assert((SocketReq { typ: "socket", id: r.id, pfam: "ax25", mode: "custom" }).fields() =~= fields);
    assert(object_text(fields) =~= t3 + "}"@);
}

/// The request that binds a callsign to a handle, and to a port where one is named.
pub proof fn law_bind_request(r: Request, before: ClientModel, handle: u64, local: &str, port: Option<&str>)
    requires
        is_request(r, before, (BindReq { typ: "bind", id: r.id, handle, local, port }).fields()),
    ensures
        r.id == before.issued + 1,
        r.bytes@ == encode_utf8(
            "{\"type\":\"bind\",\"id\":"@
                + decimal(r.id as nat)
                + ",\"handle\":"@
                + decimal(handle as nat)
                + ",\"local\":"@
                + json_string(local@)
                + (match port {
                Some(v) => ",\"port\":"@ + json_string(v@),
                None => Seq::<char>::empty(),
            })
                + "}"@,
        ),
{
    let head = "{\"type\":\"bind\",\"id\":"@;
    lemma_literals();
    let f1 = text_field("type"@, "bind"@) + number_field("id"@, r.id);
    let t1 = head + decimal(r.id as nat);
    lemma_head_text("bind"@, r.id, head);
    let f2 = f1 + number_field("handle"@, handle);
    let t2 = t1 + ",\"handle\":"@ + decimal(handle as nat);
    lemma_number_step(f1, "handle"@, handle, t1, ",\"handle\":"@);
    let f3 = f2 + text_field("local"@, local@);
    let t3 = t2 + ",\"local\":"@ + json_string(local@);
    lemma_text_step(f2, "local"@, local@, t2, ",\"local\":"@);
    let f4 = f3 + optional_field("port"@, port);
    let t4 = t3 + (match port {
        Some(v) => ",\"port\":"@ + json_string(v@),
        None => Seq::<char>::empty(),
    });
    match port {
        Some(v) => {
            lemma_text_step(f3, "port"@, v@, t3, ",\"port\":"@);
            assert(t3 + (",\"port\":"@ + json_string(v@)) =~= t3 + ",\"port\":"@ + json_string(v@));
        },
        None => {
            assert(f4 =~= f3);
            assert(t4 =~= t3);
        },
    }
    let fields = f4;
    assert((BindReq { typ: "bind", id: r.id, handle, local, port }).fields() =~= fields);
    assert(object_text(fields) =~= t4 + "}"@);
}

/// The request that listens on a handle.
pub proof fn law_listen_request(r: Request, before: ClientModel, handle: u64)
    requires
        is_request(r, before, (ListenReq { typ: "listen", id: r.id, handle, flags: 0 }).fields()),
    ensures
        r.id == before.issued + 1,
        r.bytes@ == encode_utf8(
            "{\"type\":\"listen\",\"id\":"@
                + decimal(r.id as nat)
                + ",\"handle\":"@
                + decimal(handle as nat)
                + ",\"flags\":0}"@,
        ),
{
    let head = "{\"type\":\"listen\",\"id\":"@;
    lemma_literals();
    let f1 = text_field("type"@, "listen"@) + number_field("id"@, r.id);
    let t1 = head + decimal(r.id as nat);
    lemma_head_text("listen"@, r.id, head);
    let f2 = f1 + number_field("handle"@, handle);
    let t2 = t1 + ",\"handle\":"@ + decimal(handle as nat);
    lemma_number_step(f1, "handle"@, handle, t1, ",\"handle\":"@);
    lemma_number_step(f2, "flags"@, 0, t2, ",\"flags\":"@);
    let fields = f2 + number_field("flags"@, 0);
    assert((ListenReq { typ: "listen", id: r.id, handle, flags: 0 }).fields() =~= fields);
    assert(object_text(fields) =~= t2 + ",\"flags\":0}"@);
}

/// The request that authenticates.
pub proof fn law_auth_request(r: Request, before: ClientModel, user: &str, pass: &str)
    requires
        is_request(r, before, (AuthReq { typ: "auth", id: r.id, user, pass }).fields()),
    ensures
        r.id == before.issued + 1,
        r.bytes@ == encode_utf8(
            "{\"type\":\"auth\",\"id\":"@
                + decimal(r.id as nat)
                + ",\"user\":"@
                + json_string(user@)
                + ",\"pass\":"@
                + json_string(pass@)
                + "}"@,
        ),
{
    let head = "{\"type\":\"auth\",\"id\":"@;
    lemma_literals();
    let f1 = text_field("type"@, "auth"@) + number_field("id"@, r.id);
    let t1 = head + decimal(r.id as nat);
    lemma_head_text("auth"@, r.id, head);
    let f2 = f1 + text_field("user"@, user@);
    let t2 = t1 + ",\"user\":"@ + json_string(user@);
    lemma_text_step(f1, "user"@, user@, t1, ",\"user\":"@);
    let f3 = f2 + text_field("pass"@, pass@);
    let t3 = t2 + ",\"pass\":"@ + json_string(pass@);
    lemma_text_step(f2, "pass"@, pass@, t2, ",\"pass\":"@);
    let fields = f3;
    assert((AuthReq { typ: "auth", id: r.id, user, pass }).fields() =~= fields);
    assert(object_text(fields) =~= t3 + "}"@);
}

/// The pieces of which requests are made.
proof fn lemma_literals()
    ensures
        plain("auth"@),
        "{\"type\":\"auth\",\"id\":"@ == "{\"type\":\""@ + "auth"@ + "\",\"id\":"@,
        plain("bind"@),
        "{\"type\":\"bind\",\"id\":"@ == "{\"type\":\""@ + "bind"@ + "\",\"id\":"@,
        plain("close"@),
        "{\"type\":\"close\",\"id\":"@ == "{\"type\":\""@ + "close"@ + "\",\"id\":"@,
        plain("listen"@),
        "{\"type\":\"listen\",\"id\":"@ == "{\"type\":\""@ + "listen"@ + "\",\"id\":"@,
        plain("open"@),
        "{\"type\":\"open\",\"id\":"@ == "{\"type\":\""@ + "open"@ + "\",\"id\":"@,
        plain("send"@),
        "{\"type\":\"send\",\"id\":"@ == "{\"type\":\""@ + "send"@ + "\",\"id\":"@,
        plain("sendto"@),
        "{\"type\":\"sendto\",\"id\":"@ == "{\"type\":\""@ + "sendto"@ + "\",\"id\":"@,
        plain("socket"@),
        "{\"type\":\"socket\",\"id\":"@ == "{\"type\":\""@ + "socket"@ + "\",\"id\":"@,
        plain("custom"@),
        ",\"mode\":\"custom\""@ == seq![',', '"'] + "mode"@ + seq!['"', ':', '"'] + "custom"@ + seq!['"'],
        plain("stream"@),
        ",\"mode\":\"stream\""@ == seq![',', '"'] + "mode"@ + seq!['"', ':', '"'] + "stream"@ + seq!['"'],
        plain("ax25"@),
        ",\"pfam\":\"ax25\""@ == seq![',', '"'] + "pfam"@ + seq!['"', ':', '"'] + "ax25"@ + seq!['"'],
        ",\"data\":"@ == seq![',', '"'] + "data"@ + seq!['"', ':'],
        ",\"flags\":"@ == seq![',', '"'] + "flags"@ + seq!['"', ':'],
        ",\"handle\":"@ == seq![',', '"'] + "handle"@ + seq!['"', ':'],
        ",\"local\":"@ == seq![',', '"'] + "local"@ + seq!['"', ':'],
        ",\"pass\":"@ == seq![',', '"'] + "pass"@ + seq!['"', ':'],
        ",\"port\":"@ == seq![',', '"'] + "port"@ + seq!['"', ':'],
        ",\"remote\":"@ == seq![',', '"'] + "remote"@ + seq!['"', ':'],
        ",\"user\":"@ == seq![',', '"'] + "user"@ + seq!['"', ':'],
        ",\"flags\":0}"@ == ",\"flags\":"@ + decimal(0) + seq!['}'],
        ",\"flags\":128}"@ == ",\"flags\":"@ + decimal(128) + seq!['}'],
        "}"@ == seq!['}'],
{
    reveal_strlit("\",\"id\":");
    reveal_strlit(",\"data\":");
    reveal_strlit(",\"flags\":");
    reveal_strlit(",\"flags\":0}");
    reveal_strlit(",\"flags\":128}");
    reveal_strlit(",\"handle\":");
    reveal_strlit(",\"local\":");
    reveal_strlit(",\"mode\":\"custom\"");
    reveal_strlit(",\"mode\":\"stream\"");
    reveal_strlit(",\"pass\":");
    reveal_strlit(",\"pfam\":\"ax25\"");
    reveal_strlit(",\"port\":");
    reveal_strlit(",\"remote\":");
    reveal_strlit(",\"user\":");
    reveal_strlit("auth");
    reveal_strlit("ax25");
    reveal_strlit("bind");
    reveal_strlit("close");
    reveal_strlit("custom");
    reveal_strlit("data");
    reveal_strlit("flags");
    reveal_strlit("handle");
    reveal_strlit("listen");
    reveal_strlit("local");
    reveal_strlit("mode");
    reveal_strlit("open");
    reveal_strlit("pass");
    reveal_strlit("pfam");
    reveal_strlit("port");
    reveal_strlit("remote");
    reveal_strlit("send");
    reveal_strlit("sendto");
    reveal_strlit("socket");
    reveal_strlit("stream");
    reveal_strlit("user");
    reveal_strlit("{\"type\":\"");
    reveal_strlit("{\"type\":\"auth\",\"id\":");
    reveal_strlit("{\"type\":\"bind\",\"id\":");
    reveal_strlit("{\"type\":\"close\",\"id\":");
    reveal_strlit("{\"type\":\"listen\",\"id\":");
    reveal_strlit("{\"type\":\"open\",\"id\":");
    reveal_strlit("{\"type\":\"send\",\"id\":");
    reveal_strlit("{\"type\":\"sendto\",\"id\":");
    reveal_strlit("{\"type\":\"socket\",\"id\":");
    reveal_strlit("}");
    reveal_with_fuel(decimal, 4);
}

/// The wire text of bytes is Latin-1: one code point for each byte, with the number
/// of that byte. Read back, each code point gives its low byte, and there are as many
/// bytes as code points.
pub proof fn law_wire_text_is_latin_1(bytes: Seq<u8>, text: Seq<char>)
    ensures
        wire_string(bytes).len() == bytes.len(),
        forall|i: int| 0 <= i < bytes.len() ==> (#[trigger] wire_string(bytes)[i]) as u32 == bytes[i],
        wire_bytes(text).len() == text.len(),
        forall|i: int|
            0 <= i < text.len() ==> (#[trigger] wire_bytes(text)[i]) as u32 == (text[i] as u32)
                % 256,
{
    assert forall|i: int| 0 <= i < bytes.len() implies (#[trigger] wire_string(bytes)[i]) as u32
        == bytes[i] by {
        lemma_byte_char(bytes[i]);
    }
}

proof fn lemma_byte_char(b: u8)
    ensures
        (b as char) as u32 == b,
{
}

/// A frame is its length in two bytes, the high one first, and then its payload.
pub proof fn law_frame_layout(payload: Seq<u8>)
    requires
        payload.len() <= 65535,
    ensures
        frame_bytes(payload).len() == payload.len() + 2,
        frame_bytes(payload)[0] * 256 + frame_bytes(payload)[1] == payload.len(),
        frame_bytes(payload).skip(2) == payload,
        MAX_FRAME == 65535,
{
    assert(frame_bytes(payload).skip(2) =~= payload);
}

/// Input is cut into frames by their lengths alone: where it holds a whole frame,
/// that one's bytes follow the two of its length, and the rest of the input is what
/// comes behind; otherwise too few bytes have come.
pub proof fn law_frames_are_cut_by_length(input: Seq<u8>)
    ensures
        match next_frame(input) {
            Some((body, rest)) => {
                &&& input.len() == 2 + body.len() + rest.len()
                &&& body.len() == input[0] * 256 + input[1]
                &&& input.subrange(2, 2 + body.len() as int) == body
                &&& input.skip(2 + body.len() as int) == rest
            },
            None => input.len() < 2 || input.len() < 2 + input[0] * 256 + input[1],
        },
{
}

/// A numeral has no leading zero, and its digits give the number; a negative one is
/// the numeral of its opposite behind a minus sign.
pub proof fn law_numerals(n: nat, m: int)
    ensures
        digits_value(decimal(n)) == n,
        all_digits(decimal(n)),
        decimal(n).len() > 0,
        decimal(n).len() > 1 ==> decimal(n)[0] != '0',
        m < 0 ==> signed_decimal(m) == seq!['-'] + decimal((-m) as nat),
        m >= 0 ==> signed_decimal(m) == decimal(m as nat),
    decreases n,
{
    lemma_decimal(n);
    if n >= 10 {
        law_numerals(n / 10, m);
        lemma_decimal(n / 10);
        assert(decimal(n)[0] == decimal(n / 10)[0]);
        if decimal(n / 10).len() == 1 {
            assert(decimal(n / 10).drop_last() =~= Seq::<char>::empty());
            assert(digits_value(decimal(n / 10).drop_last()) == 0);
        }
    }
}

/// The value of a numeral: each digit counts ten times the next.
pub proof fn law_digits_count_tenfold(s: Seq<char>, c: char)
    requires
        '0' <= c <= '9',
    ensures
        digits_value(Seq::empty()) == 0,
        digits_value(s.push(c)) == 10 * digits_value(s) + (c as u32 - '0' as u32),
{
    assert(s.push(c).drop_last() =~= s);
}

/// The text at a key; `None` where there is none, or something else.
pub open spec fn text_at(m: Map<Seq<char>, JsonModel>, key: Seq<char>) -> Option<Seq<char>> {
    if m.contains_key(key) && m[key] is Text {
        Some(m[key]->Text_0)
    } else {
        None
    }
}

/// The unsigned number at a key.
pub open spec fn unsigned_at(m: Map<Seq<char>, JsonModel>, key: Seq<char>) -> Option<u64> {
    if m.contains_key(key) && m[key] is Number {
        m[key]->Number_0
    } else {
        None
    }
}

/// The signed number at a key.
pub open spec fn signed_at(m: Map<Seq<char>, JsonModel>, key: Seq<char>) -> Option<i64> {
    if m.contains_key(key) && m[key] is Number {
        m[key]->Number_1
    } else {
        None
    }
}

/// What a frame says, told by the members of its document: which key each part is
/// read from, which of two spellings counts, and what stands for a missing one.
pub proof fn law_what_a_frame_says(m: Map<Seq<char>, JsonModel>)
    ensures
        ({
            let f = frame_of(m);
            &&& f.typ() == (match text_at(m, "type"@) {
                Some(t) => t,
                None => Seq::<char>::empty(),
            })
            &&& unsigned_of(f.id) == unsigned_at(m, "id"@)
            &&& unsigned_of(f.handle) == unsigned_at(m, "handle"@)
            &&& unsigned_of(f.child) == unsigned_at(m, "child"@)
            &&& unsigned_of(f.seqno) == unsigned_at(m, "seqno"@)
            &&& text_of(f.data) == text_at(m, "data"@)
            &&& text_of(f.remote) == text_at(m, "remote"@)
            &&& text_of(f.local) == text_at(m, "local"@)
            &&& f.errtext() == (if m.contains_key("errText"@) {
                text_at(m, "errText"@)
            } else {
                text_at(m, "errtext"@)
            })
            &&& Some(f.errcode()) == (match (if m.contains_key("errCode"@) {
                signed_at(m, "errCode"@)
            } else {
                signed_at(m, "errcode"@)
            }) {
                Some(n) => Some(n),
                None => Some(0i64),
            })
            &&& Some(f.status_flags()) == (match (if m.contains_key("flags"@) {
                signed_at(m, "flags"@)
            } else {
                signed_at(m, "status"@)
            }) {
                Some(n) => Some(n),
                None => Some(f.errcode()),
            })
        }),
{
}

/// The text is "Ok", in whatever case.
pub open spec fn says_ok(t: Seq<char>) -> bool {
    t.len() == 2 && (t[0] == 'o' || t[0] == 'O') && (t[1] == 'k' || t[1] == 'K')
}

proof fn lemma_says_ok(t: Seq<char>)
    ensures
        same_ignoring_case(t, "ok"@) <==> says_ok(t),
{
    reveal_strlit("ok");
    if same_ignoring_case(t, "ok"@) {
        assert(upper_text(t).len() == upper_text("ok"@).len());
        assert(upper_text(t)[0] == upper_text("ok"@)[0]);
        assert(upper_text(t)[1] == upper_text("ok"@)[1]);
        lemma_upper_is(t[0], 'O');
        lemma_upper_is(t[1], 'K');
    }
    if says_ok(t) {
        assert(upper_text(t) =~= upper_text("ok"@));
    }
}

proof fn lemma_upper_is(c: char, capital: char)
    requires
        'A' <= capital <= 'Z',
    ensures
        upper(c) == capital <==> c == capital || c as u32 == capital as u32 + 32,
{
}

/// A request succeeds exactly where the reply's error code is 0 or its error text is
/// "Ok"; otherwise the error carries that code and that text. Nothing else that the
/// reply holds, its handle or id or type, makes any difference.
pub proof fn law_only_code_and_text_decide(f: Frame, g: Frame)
    ensures
        plain_result(Outcome::Reply(f)) is Ok <==> f@.errcode() == 0 || (f@.errtext() is Some
            && says_ok(f@.errtext()->Some_0)),
        plain_result(Outcome::Reply(f)) matches Err(e) ==> e == (RhpErrorModel::Server {
            errcode: f@.errcode(),
            errtext: f@.errtext(),
        }),
        f@.errcode() == g@.errcode() && f@.errtext() == g@.errtext() ==> plain_result(
            Outcome::Reply(f),
        ) == plain_result(Outcome::Reply(g)),
{
    if f@.errtext() is Some {
        lemma_says_ok(f@.errtext()->Some_0);
    }
}

/// A request that brings a handle brings the one in its reply where that succeeds,
/// and fails where it has none or is refused.
pub proof fn law_handles_come_from_replies(f: Frame, missing: Seq<char>)
    ensures
        handle_result(Outcome::Reply(f), missing) == (match plain_result(Outcome::Reply(f)) {
            Err(e) => Err(e),
            Ok(_) => match f@.handle {
                Some(JsonModel::Number(Some(h), _)) => Ok(h),
                _ => Err(RhpErrorModel::Server { errcode: 1, errtext: Some(missing) }),
            },
        }),
{
}

/// A request without a reply always fails: in time with `ETIMEDOUT`, else as an
/// error of the transport with `EIO`; and a refusal has the errno of its code.
pub proof fn law_failures_have_an_errno(why: String, missing: Seq<char>, code: i64, text: Option<Seq<char>>)
    ensures
        plain_result(Outcome::Timeout) == Err::<(), RhpErrorModel>(RhpErrorModel::Timeout),
        plain_result(Outcome::Disconnected) == Err::<(), RhpErrorModel>(
            RhpErrorModel::Io("rhp connection closed"@),
        ),
        plain_result(Outcome::WriteFailed(why)) == Err::<(), RhpErrorModel>(
            RhpErrorModel::Io(why@),
        ),
        handle_result(Outcome::Timeout, missing) == Err::<u64, RhpErrorModel>(
            RhpErrorModel::Timeout,
        ),
        handle_result(Outcome::Disconnected, missing) == Err::<u64, RhpErrorModel>(
            RhpErrorModel::Io("rhp connection closed"@),
        ),
        handle_result(Outcome::WriteFailed(why), missing) == Err::<u64, RhpErrorModel>(
            RhpErrorModel::Io(why@),
        ),
        RhpErrorModel::Timeout.errno() == 110,
        RhpErrorModel::Io(why@).errno() == 5,
        (RhpErrorModel::Server { errcode: code, errtext: text }).errno() == (if code == 0 {
            0i32
        } else if code == 3 {
            9
        } else if code == 6 {
            99
        } else if code == 7 || code == 12 {
            22
        } else if code == 8 {
            97
        } else if code == 9 {
            98
        } else if code == 14 {
            13
        } else if code == 15 {
            113
        } else if code == 16 {
            95
        } else if code == 17 {
            107
        } else {
            5
        }),
{
}

/// Received data reaches the application as it was sent: a `recv` that carries the
/// wire text of some bytes is a push of exactly those bytes on its handle. One
/// without data carries none.
pub proof fn law_received_data_is_what_was_sent(m: Map<Seq<char>, JsonModel>, bytes: Seq<u8>, handle: u64)
    requires
        text_at(m, "type"@) == Some("recv"@),
        unsigned_at(m, "handle"@) == Some(handle),
        text_at(m, "data"@) == Some(wire_string(bytes)) || (text_at(m, "data"@) is None
            && bytes.len() == 0),
    ensures
        push_of(frame_of(m)) == Some(PushModel::Recv { handle, data: bytes }),
        text_at(m, "remote"@) is None ==> crate::rhpv2::client::push_of(frame_of(m)) == Some(
            PushModel::Recv { handle, data: bytes },
        ),
        text_at(m, "remote"@) is Some ==> crate::rhpv2::client::push_of(frame_of(m)) == Some(
            PushModel::Dgram {
                handle,
                source: text_at(m, "remote"@),
                dest: text_at(m, "local"@),
                data: bytes,
            },
        ),
{
    law_what_a_frame_says(m);
    law_wire_round_trip(bytes);
    assert(bytes.len() == 0 ==> bytes =~= Seq::<u8>::empty());
}

/// Whatever text a `recv` carries, there is one byte for each of its code points, the
/// low byte of it.
pub proof fn law_no_code_point_is_lost(m: Map<Seq<char>, JsonModel>, text: Seq<char>, handle: u64)
    requires
        text_at(m, "type"@) == Some("recv"@),
        unsigned_at(m, "handle"@) == Some(handle),
        text_at(m, "data"@) == Some(text),
    ensures
        push_of(frame_of(m)) is Some,
        push_of(frame_of(m))->Some_0 is Recv,
        ({
            let data = push_of(frame_of(m))->Some_0->Recv_data;
            data.len() == text.len() && forall|i: int|
                0 <= i < text.len() ==> (#[trigger] data[i]) as u32 == (text[i] as u32) % 256
        }),
        payload_of(frame_of(m)) == push_of(frame_of(m))->Some_0->Recv_data,
{
    law_what_a_frame_says(m);
    law_wire_text_is_latin_1(Seq::empty(), text);
}

/// What the other pushes say, told by their members; both clients read them alike.
/// Frames of any other type, and those without a handle, are ignored.
pub proof fn law_what_a_push_says(m: Map<Seq<char>, JsonModel>)
    ensures
        ({
            let handle = unsigned_at(m, "handle"@);
            let typ = text_at(m, "type"@);
            let base = push_of(frame_of(m));
            let full = crate::rhpv2::client::push_of(frame_of(m));
            &&& handle is None ==> base is None && full is None
            &&& typ != Some("recv"@) ==> base == full
            &&& handle matches Some(h) ==> {
                &&& typ == Some("recv"@) ==> base is Some && base->Some_0 is Recv && full is Some
                &&& typ == Some("status"@) ==> base == Some(
                    PushModel::Status { handle: h, flags: frame_of(m).status_flags() },
                )
                &&& typ == Some("close"@) ==> base == Some(PushModel::Close { handle: h })
                &&& typ == Some("accept"@) && unsigned_at(m, "child"@) is None ==> base is None
                &&& typ == Some("accept"@) && unsigned_at(m, "child"@) is Some ==> base == Some(
                    PushModel::Accept {
                        listener: h,
                        child: unsigned_at(m, "child"@)->Some_0,
                        remote: text_at(m, "remote"@),
                        local: text_at(m, "local"@),
                    },
                )
                &&& typ != Some("recv"@) && typ != Some("status"@) && typ != Some("close"@) && typ
                    != Some("accept"@) ==> base is None
            }
        }),
{
    law_what_a_frame_says(m);
    reveal_strlit("recv");
    reveal_strlit("status");
    reveal_strlit("close");
    reveal_strlit("accept");
    assert("status"@[0] == 's' && "accept"@[0] == 'a');
    assert("close"@.len() == 5 && "recv"@.len() == 4 && "status"@.len() == 6 && "accept"@.len()
        == 6);
}

/// There are as many chunks as it takes, and one for no data.
pub proof fn law_number_of_chunks(data: Seq<u8>)
    ensures
        data.len() == 0 ==> chunks(data).len() == 1,
        data.len() > 0 ==> 8100 * (chunks(data).len() - 1) < data.len(),
        data.len() <= 8100 * chunks(data).len(),
{
}

/// Every chunk but the last is as long as one may be, 8100 bytes.
pub proof fn law_chunks_are_full(data: Seq<u8>, i: int)
    requires
        0 <= i < chunks(data).len(),
    ensures
        i + 1 < chunks(data).len() ==> chunks(data)[i].len() == 8100,
        chunks(data)[i].len() <= 8100,
        chunks(data)[i] == data.subrange(8100 * i, 8100 * i + chunks(data)[i].len()),
{
    assert(chunks(data)[i] =~= data.subrange(8100 * i, 8100 * i + chunks(data)[i].len()));
}

/// A frame answers the request with its id and no other; one without an id, or with
/// an id that nothing waits for, answers none. Answering, giving up and new requests
/// change nothing else.
pub proof fn law_who_is_answered(
    c: ClientModel,
    m: Map<Seq<char>, JsonModel>,
    id: u64,
    other: u64,
)
    requires
        c.wf(),
        c.issued < u64::MAX,
    ensures
        c.answered_by(frame_of(m)) == Some(id) <==> unsigned_at(m, "id"@) == Some(id)
            && c.waiting.contains(id),
        c.without(id).waiting.contains(other) <==> c.waiting.contains(other) && other != id,
        c.without(id).issued == c.issued,
        c.without(id).closed == c.closed,
        c.after_request().waiting.contains(other) <==> c.waiting.contains(other) || other
            == c.issued + 1,
        c.after_request().issued == c.issued + 1,
        c.after_request().closed == c.closed,
        !c.ended().waiting.contains(other),
        c.ended().issued == c.issued,
        c.ended().closed,
{
    law_what_a_frame_says(m);
}

/// One look at a request that was sent. A reply that has come is its outcome, whatever
/// else holds. Without one, a request that is no longer waited for has lost its
/// transport; one that is waited for goes on until its limit has passed, and is given up
/// then.
pub proof fn law_one_look_at_a_request(
    waiting: bool,
    reply: Option<Frame>,
    limit: u128,
    elapsed: u128,
    r: Option<Outcome>,
)
    requires
        is_reply_step(waiting, reply, limit, elapsed, r),
    ensures
        reply is Some ==> r is Some && r->Some_0 is Reply && r->Some_0->Reply_0@
            == reply->Some_0@,
        reply is None && !waiting ==> r is Some && r->Some_0 is Disconnected,
        reply is None && waiting && elapsed >= limit ==> r is Some && r->Some_0 is Timeout,
        reply is None && waiting && elapsed < limit ==> r is None,
        REPLY_LIMIT == 30_000_000_000,
{
}

/// How failures read, and the names of error codes.
pub proof fn law_how_failures_read(
    why: Seq<char>,
    code: i64,
    text: Seq<char>,
    length: usize,
    unknown: int,
)
    requires
        unknown != 0 && unknown != 3 && !(6 <= unknown <= 9) && unknown != 12 && !(14 <= unknown
            <= 17),
    ensures
        RhpErrorModel::Io(why).message() == "rhp transport error: "@ + why,
        RhpErrorModel::Timeout.message() == "rhp request timed out"@,
        (RhpErrorModel::Server { errcode: code, errtext: Some(text) }).message()
            == "rhp server error "@ + signed_decimal(code as int) + " ("@ + text + ")"@,
        (RhpErrorModel::Server { errcode: code, errtext: None }).message()
            == "rhp server error "@ + signed_decimal(code as int) + " (?)"@,
        FrameError::TooLarge(length).message_text() == "RHP frame too large: "@ + decimal(
            length as nat,
        ) + " > 65535"@,
        FrameError::UnexpectedEof.message_text() == "failed to fill whole buffer"@,
        name_of(0) == "Ok"@,
        name_of(3) == "Invalid handle"@,
        name_of(6) == "Invalid local address"@,
        name_of(7) == "Invalid remote address"@,
        name_of(8) == "Bad or missing family"@,
        name_of(9) == "Duplicate socket"@,
        name_of(12) == "Bad parameter"@,
        name_of(14) == "Unauthorised"@,
        name_of(15) == "No route"@,
        name_of(16) == "Operation not supported"@,
        name_of(17) == "Not connected"@,
        name_of(unknown) == "Unspecified"@,
{
    reveal_strlit(" (");
    reveal_strlit("?");
    reveal_strlit(")");
    reveal_strlit(" (?)");
    let head = "rhp server error "@ + signed_decimal(code as int);
    assert(head + " ("@ + "?"@ + ")"@ =~= head + " (?)"@);
}

/// Optional texts and results are taken as they are.
pub proof fn law_views_of_results(
    text: &str,
    owned: String,
    good: Result<u64, RhpError>,
    error: RhpError,
    push: Push,
)
    ensures
        text_view(Some(text)) == Some(text@),
        text_view(None) is None,
        string_view(Some(owned)) == Some(owned@),
        string_view(None) is None,
        good matches Ok(h) ==> result_view(good) == Ok::<u64, RhpErrorModel>(h),
        good matches Err(e) ==> result_view(good) == Err::<u64, RhpErrorModel>(e@),
        error matches RhpError::Io(why) ==> error@ == RhpErrorModel::Io(why@),
        error is Timeout ==> error@ == RhpErrorModel::Timeout,
        error is Server ==> error@ is Server && error@->errcode == error->errcode && (error->errtext
            is Some <==> error@->errtext is Some) && (error->errtext is Some
            ==> error@->errtext->Some_0 == error->errtext->Some_0@),
        push_view(Some(push)) == Some(push@),
        push_view(None) is None,
        push matches Push::Recv { handle, data } ==> push@ == (PushModel::Recv {
            handle,
            data: data@,
        }),
        push matches Push::Dgram { handle, source, dest, data } ==> push@ == (PushModel::Dgram {
            handle,
            source: string_view(source),
            dest: string_view(dest),
            data: data@,
        }),
        push matches Push::Accept { listener, child, remote, local } ==> push@ == (
        PushModel::Accept {
            listener,
            child,
            remote: string_view(remote),
            local: string_view(local),
        }),
        push matches Push::Status { handle, flags } ==> push@ == (PushModel::Status {
            handle,
            flags,
        }),
        push matches Push::Close { handle } ==> push@ == (PushModel::Close { handle }),
{
}

/// Which members each request has, in order. Those without a value are left out.
pub proof fn law_members_of_requests(
    open: OpenReq,
    send: SendReq,
    close: CloseReq,
    socket: SocketReq,
    bind: BindReq,
    listen: ListenReq,
    auth: AuthReq,
    sendto: SendToReq,
)
    ensures
        open.port is Some && open.remote is Some ==> open.fields() == seq![
            ("type"@, FieldModel::Text(open.typ@)),
            ("id"@, FieldModel::Number(open.id)),
            ("pfam"@, FieldModel::Text(open.pfam@)),
            ("mode"@, FieldModel::Text(open.mode@)),
            ("port"@, FieldModel::Text(open.port->Some_0@)),
            ("local"@, FieldModel::Text(open.local@)),
            ("remote"@, FieldModel::Text(open.remote->Some_0@)),
            ("flags"@, FieldModel::Number(open.flags as u64)),
        ],
        open.port is None && open.remote is Some ==> open.fields() == seq![
            ("type"@, FieldModel::Text(open.typ@)),
            ("id"@, FieldModel::Number(open.id)),
            ("pfam"@, FieldModel::Text(open.pfam@)),
            ("mode"@, FieldModel::Text(open.mode@)),
            ("local"@, FieldModel::Text(open.local@)),
            ("remote"@, FieldModel::Text(open.remote->Some_0@)),
            ("flags"@, FieldModel::Number(open.flags as u64)),
        ],
        open.port is Some && open.remote is None ==> open.fields() == seq![
            ("type"@, FieldModel::Text(open.typ@)),
            ("id"@, FieldModel::Number(open.id)),
            ("pfam"@, FieldModel::Text(open.pfam@)),
            ("mode"@, FieldModel::Text(open.mode@)),
            ("port"@, FieldModel::Text(open.port->Some_0@)),
            ("local"@, FieldModel::Text(open.local@)),
            ("flags"@, FieldModel::Number(open.flags as u64)),
        ],
        open.port is None && open.remote is None ==> open.fields() == seq![
            ("type"@, FieldModel::Text(open.typ@)),
            ("id"@, FieldModel::Number(open.id)),
            ("pfam"@, FieldModel::Text(open.pfam@)),
            ("mode"@, FieldModel::Text(open.mode@)),
            ("local"@, FieldModel::Text(open.local@)),
            ("flags"@, FieldModel::Number(open.flags as u64)),
        ],
        send.fields() == seq![
            ("type"@, FieldModel::Text(send.typ@)),
            ("id"@, FieldModel::Number(send.id)),
            ("handle"@, FieldModel::Number(send.handle)),
            ("data"@, FieldModel::Text(send.data@)),
        ],
        close.fields() == seq![
            ("type"@, FieldModel::Text(close.typ@)),
            ("id"@, FieldModel::Number(close.id)),
            ("handle"@, FieldModel::Number(close.handle)),
        ],
        socket.fields() == seq![
            ("type"@, FieldModel::Text(socket.typ@)),
            ("id"@, FieldModel::Number(socket.id)),
            ("pfam"@, FieldModel::Text(socket.pfam@)),
            ("mode"@, FieldModel::Text(socket.mode@)),
        ],
        bind.port is Some ==> bind.fields() == seq![
            ("type"@, FieldModel::Text(bind.typ@)),
            ("id"@, FieldModel::Number(bind.id)),
            ("handle"@, FieldModel::Number(bind.handle)),
            ("local"@, FieldModel::Text(bind.local@)),
            ("port"@, FieldModel::Text(bind.port->Some_0@)),
        ],
        bind.port is None ==> bind.fields() == seq![
            ("type"@, FieldModel::Text(bind.typ@)),
            ("id"@, FieldModel::Number(bind.id)),
            ("handle"@, FieldModel::Number(bind.handle)),
            ("local"@, FieldModel::Text(bind.local@)),
        ],
        listen.fields() == seq![
            ("type"@, FieldModel::Text(listen.typ@)),
            ("id"@, FieldModel::Number(listen.id)),
            ("handle"@, FieldModel::Number(listen.handle)),
            ("flags"@, FieldModel::Number(listen.flags as u64)),
        ],
        auth.fields() == seq![
            ("type"@, FieldModel::Text(auth.typ@)),
            ("id"@, FieldModel::Number(auth.id)),
            ("user"@, FieldModel::Text(auth.user@)),
            ("pass"@, FieldModel::Text(auth.pass@)),
        ],
        sendto.fields() == seq![
            ("type"@, FieldModel::Text(sendto.typ@)),
            ("id"@, FieldModel::Number(sendto.id)),
            ("handle"@, FieldModel::Number(sendto.handle)),
            ("remote"@, FieldModel::Text(sendto.remote@)),
            ("local"@, FieldModel::Text(sendto.local@)),
            ("data"@, FieldModel::Text(sendto.data@)),
        ],
{
}

} // verus!
