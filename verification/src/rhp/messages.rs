//! Message shapes: typed requests, and loosely read replies and pushes.
//!
//! A request writes its members in a fixed order, `type` first. A reply or push
//! is read member by member, because engines differ in the case of keys.

use vstd::prelude::*;
use vstd::utf8::encode_utf8;

use super::codec::{law_wire_round_trip, wire_bytes, wire_string};
use super::framing::MAX_FRAME;
use super::json::{
    json_document, json_from_slice, json_get, lemma_members_append, lemma_members_single,
    lemma_number_size, lemma_object_size, lemma_text_size, members_of, members_size, object_text,
    plain, read_back, writable, FieldModel, Fields, Json, JsonModel, ObjectWriter,
};

verus! {

/// `flags` of an active `open`: perform a connect.
pub const OPEN_FLAG_ACTIVE: u32 = 128;

/// `flags` of a passive `open`: a listener.
pub const OPEN_FLAG_PASSIVE: u32 = 0;

/// The status bit that says that the link is up. An `openReply` only means that
/// the request was accepted; a later `status` push with this bit reports success.
pub const STATUS_CONNECTED: i64 = 2;

/// The most bytes of data that one `send` carries.
pub const MAX_SEND_CHUNK: usize = 8100;

/// A string member.
pub open spec fn text_field(key: Seq<char>, value: Seq<char>) -> Fields {
    seq![(key, FieldModel::Text(value))]
}

/// A number member.
pub open spec fn number_field(key: Seq<char>, value: u64) -> Fields {
    seq![(key, FieldModel::Number(value))]
}

/// A string member that is left out where there is no value.
pub open spec fn optional_field(key: Seq<char>, value: Option<&str>) -> Fields {
    match value {
        Some(v) => text_field(key, v@),
        None => Seq::empty(),
    }
}

pub struct OpenReq<'a> {
    pub typ: &'static str,
    pub id: u64,
    pub pfam: &'a str,
    pub mode: &'a str,
    pub port: Option<&'a str>,
    pub local: &'a str,
    pub remote: Option<&'a str>,
    pub flags: u32,
}

pub struct SendReq<'a> {
    pub typ: &'static str,
    pub id: u64,
    pub handle: u64,
    /// A Latin-1 wire string.
    pub data: &'a str,
}

pub struct CloseReq {
    pub typ: &'static str,
    pub id: u64,
    pub handle: u64,
}

pub struct SocketReq<'a> {
    pub typ: &'static str,
    pub id: u64,
    pub pfam: &'a str,
    pub mode: &'a str,
}

pub struct BindReq<'a> {
    pub typ: &'static str,
    pub id: u64,
    pub handle: u64,
    pub local: &'a str,
    pub port: Option<&'a str>,
}

pub struct ListenReq {
    pub typ: &'static str,
    pub id: u64,
    pub handle: u64,
    pub flags: u32,
}

pub struct AuthReq<'a> {
    pub typ: &'static str,
    pub id: u64,
    pub user: &'a str,
    pub pass: &'a str,
}

/// A datagram: one UI frame to a remote callsign.
pub struct SendToReq<'a> {
    pub typ: &'static str,
    pub id: u64,
    pub handle: u64,
    pub remote: &'a str,
    pub local: &'a str,
    /// A Latin-1 wire string; its first octet is the protocol id.
    pub data: &'a str,
}

/// Writes a member that may be absent.
fn write_optional(w: &mut ObjectWriter, key: &str, value: Option<&str>) -> (r: Result<
    (),
    serde_json::Error,
>)
    requires
        old(w).wf(),
    ensures
        r is Ok,
        final(w).wf(),
        final(w).written() == old(w).written() + optional_field(key@, value),
{
    match value {
        Some(v) => w.text(key, v)?,
        None => {},
    }
    assert(w.written() =~= old(w).written() + optional_field(key@, value));
    Ok(())
}

impl<'a> OpenReq<'a> {
    /// The members, in wire order.
    pub open spec fn fields(self) -> Fields {
        text_field("type"@, self.typ@) + number_field("id"@, self.id) + text_field(
            "pfam"@,
            self.pfam@,
        ) + text_field("mode"@, self.mode@) + optional_field("port"@, self.port) + text_field(
            "local"@,
            self.local@,
        ) + optional_field("remote"@, self.remote) + number_field("flags"@, self.flags as u64)
    }

    /// The JSON bytes of the request.
    pub fn to_json(&self) -> (r: Result<Vec<u8>, serde_json::Error>)
        ensures
            r is Ok,
            r->Ok_0@ == encode_utf8(object_text(self.fields())),
    {
        let mut w = ObjectWriter::new();
        w.text("type", self.typ)?;
        w.number("id", self.id);
        w.text("pfam", self.pfam)?;
        w.text("mode", self.mode)?;
        write_optional(&mut w, "port", self.port)?;
        w.text("local", self.local)?;
        write_optional(&mut w, "remote", self.remote)?;
        w.number("flags", self.flags as u64);
        assert(w.written() =~= self.fields());
        Ok(w.finish())
    }
}

impl<'a> SendReq<'a> {
    /// The members, in wire order.
    pub open spec fn fields(self) -> Fields {
        text_field("type"@, self.typ@) + number_field("id"@, self.id) + number_field(
            "handle"@,
            self.handle,
        ) + text_field("data"@, self.data@)
    }

    /// The JSON bytes of the request.
    pub fn to_json(&self) -> (r: Result<Vec<u8>, serde_json::Error>)
        ensures
            r is Ok,
            r->Ok_0@ == encode_utf8(object_text(self.fields())),
    {
        let mut w = ObjectWriter::new();
        w.text("type", self.typ)?;
        w.number("id", self.id);
        w.number("handle", self.handle);
        w.text("data", self.data)?;
        assert(w.written() =~= self.fields());
        Ok(w.finish())
    }
}

impl CloseReq {
    /// The members, in wire order.
    pub open spec fn fields(self) -> Fields {
        text_field("type"@, self.typ@) + number_field("id"@, self.id) + number_field(
            "handle"@,
            self.handle,
        )
    }

    /// The JSON bytes of the request.
    pub fn to_json(&self) -> (r: Result<Vec<u8>, serde_json::Error>)
        ensures
            r is Ok,
            r->Ok_0@ == encode_utf8(object_text(self.fields())),
    {
        let mut w = ObjectWriter::new();
        w.text("type", self.typ)?;
        w.number("id", self.id);
        w.number("handle", self.handle);
        assert(w.written() =~= self.fields());
        Ok(w.finish())
    }
}

impl<'a> SocketReq<'a> {
    /// The members, in wire order.
    pub open spec fn fields(self) -> Fields {
        text_field("type"@, self.typ@) + number_field("id"@, self.id) + text_field(
            "pfam"@,
            self.pfam@,
        ) + text_field("mode"@, self.mode@)
    }

    /// The JSON bytes of the request.
    pub fn to_json(&self) -> (r: Result<Vec<u8>, serde_json::Error>)
        ensures
            r is Ok,
            r->Ok_0@ == encode_utf8(object_text(self.fields())),
    {
        let mut w = ObjectWriter::new();
        w.text("type", self.typ)?;
        w.number("id", self.id);
        w.text("pfam", self.pfam)?;
        w.text("mode", self.mode)?;
        assert(w.written() =~= self.fields());
        Ok(w.finish())
    }
}

impl<'a> BindReq<'a> {
    /// The members, in wire order.
    pub open spec fn fields(self) -> Fields {
        text_field("type"@, self.typ@) + number_field("id"@, self.id) + number_field(
            "handle"@,
            self.handle,
        ) + text_field("local"@, self.local@) + optional_field("port"@, self.port)
    }

    /// The JSON bytes of the request.
    pub fn to_json(&self) -> (r: Result<Vec<u8>, serde_json::Error>)
        ensures
            r is Ok,
            r->Ok_0@ == encode_utf8(object_text(self.fields())),
    {
        let mut w = ObjectWriter::new();
        w.text("type", self.typ)?;
        w.number("id", self.id);
        w.number("handle", self.handle);
        w.text("local", self.local)?;
        write_optional(&mut w, "port", self.port)?;
        assert(w.written() =~= self.fields());
        Ok(w.finish())
    }
}

impl ListenReq {
    /// The members, in wire order.
    pub open spec fn fields(self) -> Fields {
        text_field("type"@, self.typ@) + number_field("id"@, self.id) + number_field(
            "handle"@,
            self.handle,
        ) + number_field("flags"@, self.flags as u64)
    }

    /// The JSON bytes of the request.
    pub fn to_json(&self) -> (r: Result<Vec<u8>, serde_json::Error>)
        ensures
            r is Ok,
            r->Ok_0@ == encode_utf8(object_text(self.fields())),
    {
        let mut w = ObjectWriter::new();
        w.text("type", self.typ)?;
        w.number("id", self.id);
        w.number("handle", self.handle);
        w.number("flags", self.flags as u64);
        assert(w.written() =~= self.fields());
        Ok(w.finish())
    }
}

impl<'a> AuthReq<'a> {
    /// The members, in wire order.
    pub open spec fn fields(self) -> Fields {
        text_field("type"@, self.typ@) + number_field("id"@, self.id) + text_field(
            "user"@,
            self.user@,
        ) + text_field("pass"@, self.pass@)
    }

    /// The JSON bytes of the request.
    pub fn to_json(&self) -> (r: Result<Vec<u8>, serde_json::Error>)
        ensures
            r is Ok,
            r->Ok_0@ == encode_utf8(object_text(self.fields())),
    {
        let mut w = ObjectWriter::new();
        w.text("type", self.typ)?;
        w.number("id", self.id);
        w.text("user", self.user)?;
        w.text("pass", self.pass)?;
        assert(w.written() =~= self.fields());
        Ok(w.finish())
    }
}

impl<'a> SendToReq<'a> {
    /// The members, in wire order.
    pub open spec fn fields(self) -> Fields {
        text_field("type"@, self.typ@) + number_field("id"@, self.id) + number_field(
            "handle"@,
            self.handle,
        ) + text_field("remote"@, self.remote@) + text_field("local"@, self.local@)
            + text_field("data"@, self.data@)
    }

    /// The JSON bytes of the request.
    pub fn to_json(&self) -> (r: Result<Vec<u8>, serde_json::Error>)
        ensures
            r is Ok,
            r->Ok_0@ == encode_utf8(object_text(self.fields())),
    {
        let mut w = ObjectWriter::new();
        w.text("type", self.typ)?;
        w.number("id", self.id);
        w.number("handle", self.handle);
        w.text("remote", self.remote)?;
        w.text("local", self.local)?;
        w.text("data", self.data)?;
        assert(w.written() =~= self.fields());
        Ok(w.finish())
    }
}

/// What the protocol reads of a reply or an async push, member by member.
#[derive(Debug, Clone)]
pub struct Frame {
    pub typ: Option<Json>,
    pub id: Option<Json>,
    pub handle: Option<Json>,
    pub child: Option<Json>,
    pub seqno: Option<Json>,
    /// `errCode`, as engines write it.
    pub err_code: Option<Json>,
    /// `errcode`, as the protocol description writes it.
    pub errcode: Option<Json>,
    pub flags: Option<Json>,
    pub status: Option<Json>,
    /// `errText`.
    pub err_text: Option<Json>,
    /// `errtext`.
    pub errtext: Option<Json>,
    pub data: Option<Json>,
    pub remote: Option<Json>,
    pub local: Option<Json>,
}

/// The mathematical value of a `Frame`.
#[verifier::ext_equal]
pub struct FrameModel {
    pub typ: Option<JsonModel>,
    pub id: Option<JsonModel>,
    pub handle: Option<JsonModel>,
    pub child: Option<JsonModel>,
    pub seqno: Option<JsonModel>,
    pub err_code: Option<JsonModel>,
    pub errcode: Option<JsonModel>,
    pub flags: Option<JsonModel>,
    pub status: Option<JsonModel>,
    pub err_text: Option<JsonModel>,
    pub errtext: Option<JsonModel>,
    pub data: Option<JsonModel>,
    pub remote: Option<JsonModel>,
    pub local: Option<JsonModel>,
}

/// The value of a member that may be absent.
pub open spec fn value_of(j: Option<Json>) -> Option<JsonModel> {
    match j {
        Some(v) => Some(v@),
        None => None,
    }
}

/// A member of an object.
pub open spec fn lookup(members: Map<Seq<char>, JsonModel>, key: Seq<char>) -> Option<JsonModel> {
    if members.contains_key(key) {
        Some(members[key])
    } else {
        None
    }
}

/// The frame with these members.
pub open spec fn frame_of(members: Map<Seq<char>, JsonModel>) -> FrameModel {
    FrameModel {
        typ: lookup(members, "type"@),
        id: lookup(members, "id"@),
        handle: lookup(members, "handle"@),
        child: lookup(members, "child"@),
        seqno: lookup(members, "seqno"@),
        err_code: lookup(members, "errCode"@),
        errcode: lookup(members, "errcode"@),
        flags: lookup(members, "flags"@),
        status: lookup(members, "status"@),
        err_text: lookup(members, "errText"@),
        errtext: lookup(members, "errtext"@),
        data: lookup(members, "data"@),
        remote: lookup(members, "remote"@),
        local: lookup(members, "local"@),
    }
}

/// The string that a member holds.
pub open spec fn text_of(j: Option<JsonModel>) -> Option<Seq<char>> {
    match j {
        Some(JsonModel::Text(s)) => Some(s),
        _ => None,
    }
}

/// The unsigned integer that a member holds.
pub open spec fn unsigned_of(j: Option<JsonModel>) -> Option<u64> {
    match j {
        Some(JsonModel::Number(u, _)) => u,
        _ => None,
    }
}

/// The signed integer that a member holds.
pub open spec fn signed_of(j: Option<JsonModel>) -> Option<i64> {
    match j {
        Some(JsonModel::Number(_, i)) => i,
        _ => None,
    }
}

/// The first member that is present.
pub open spec fn first_of(a: Option<JsonModel>, b: Option<JsonModel>) -> Option<JsonModel> {
    if a is Some {
        a
    } else {
        b
    }
}

/// The value of an optional text.
pub open spec fn text_view(s: Option<&str>) -> Option<Seq<char>> {
    match s {
        Some(t) => Some(t@),
        None => None,
    }
}

/// The value of an optional owned text.
pub open spec fn string_view(s: Option<String>) -> Option<Seq<char>> {
    match s {
        Some(t) => Some(t@),
        None => None,
    }
}

/// The string that a member holds.
fn read_text(j: &Option<Json>) -> (r: Option<&str>)
    ensures
        text_view(r) == text_of(value_of(*j)),
{
    match j {
        Some(Json::Text(s)) => Some(s.as_str()),
        _ => None,
    }
}

/// The unsigned integer that a member holds.
fn read_unsigned(j: &Option<Json>) -> (r: Option<u64>)
    ensures
        r == unsigned_of(value_of(*j)),
{
    match j {
        Some(Json::Number(u, _)) => *u,
        _ => None,
    }
}

/// The signed integer that a member holds.
fn read_signed(j: &Option<Json>) -> (r: Option<i64>)
    ensures
        r == signed_of(value_of(*j)),
{
    match j {
        Some(Json::Number(_, i)) => *i,
        _ => None,
    }
}

/// The first member that is present.
fn read_first<'a>(a: &'a Option<Json>, b: &'a Option<Json>) -> (r: &'a Option<Json>)
    ensures
        value_of(*r) == first_of(value_of(*a), value_of(*b)),
{
    if a.is_some() {
        a
    } else {
        b
    }
}

impl FrameModel {
    /// The `type` discriminator, empty where it is missing.
    pub open spec fn typ(self) -> Seq<char> {
        match text_of(self.typ) {
            Some(s) => s,
            None => Seq::empty(),
        }
    }

    /// The error code: `errCode`, else `errcode`, else 0 (Ok).
    pub open spec fn errcode(self) -> i64 {
        match signed_of(first_of(self.err_code, self.errcode)) {
            Some(n) => n,
            None => 0,
        }
    }

    /// The status bits: `flags`, else `status`, else the error code.
    pub open spec fn status_flags(self) -> i64 {
        match signed_of(first_of(self.flags, self.status)) {
            Some(n) => n,
            None => self.errcode(),
        }
    }

    /// The error text: `errText`, else `errtext`.
    pub open spec fn errtext(self) -> Option<Seq<char>> {
        text_of(first_of(self.err_text, self.errtext))
    }
}

impl View for Frame {
    type V = FrameModel;

    open spec fn view(&self) -> FrameModel {
        FrameModel {
            typ: value_of(self.typ),
            id: value_of(self.id),
            handle: value_of(self.handle),
            child: value_of(self.child),
            seqno: value_of(self.seqno),
            err_code: value_of(self.err_code),
            errcode: value_of(self.errcode),
            flags: value_of(self.flags),
            status: value_of(self.status),
            err_text: value_of(self.err_text),
            errtext: value_of(self.errtext),
            data: value_of(self.data),
            remote: value_of(self.remote),
            local: value_of(self.local),
        }
    }
}

impl Frame {
    /// Parses a frame body. It is refused where it is no JSON document. What was
    /// written as an object with plain keys reads back member by member.
    pub fn parse(bytes: &[u8]) -> (r: Result<Frame, serde_json::Error>)
        ensures
            r is Ok <==> json_document(bytes@) is Some,
            r matches Ok(f) ==> f@ == frame_of(json_document(bytes@)->Some_0),
            forall|fields: Fields|
                writable(fields) && bytes@ == encode_utf8(#[trigger] object_text(fields)) ==> r is Ok
                    && r->Ok_0@ == frame_of(members_of(fields)),
    {
        match json_from_slice(bytes) {
            Ok(v) => Ok(Frame::read(&v)),
            Err(e) => Err(e),
        }
    }

    /// Reads the members that the protocol knows.
    fn read(v: &serde_json::Value) -> (r: Frame)
        ensures
            r@ == frame_of(super::json::json_members(*v)),
    {
        Frame {
            typ: json_get(v, "type"),
            id: json_get(v, "id"),
            handle: json_get(v, "handle"),
            child: json_get(v, "child"),
            seqno: json_get(v, "seqno"),
            err_code: json_get(v, "errCode"),
            errcode: json_get(v, "errcode"),
            flags: json_get(v, "flags"),
            status: json_get(v, "status"),
            err_text: json_get(v, "errText"),
            errtext: json_get(v, "errtext"),
            data: json_get(v, "data"),
            remote: json_get(v, "remote"),
            local: json_get(v, "local"),
        }
    }

    /// The `type` discriminator, or "" if missing.
    pub fn typ(&self) -> (r: &str)
        ensures
            r@ == self@.typ(),
    {
        proof {
            reveal_strlit("");
        }
        let r = match read_text(&self.typ) {
            Some(s) => s,
            None => "",
        };
        assert(r@ =~= self@.typ());
        r
    }

    /// The correlation `id`; replies echo it, pushes omit it.
    pub fn id(&self) -> (r: Option<u64>)
        ensures
            r == unsigned_of(self@.id),
    {
        read_unsigned(&self.id)
    }

    /// The socket `handle`.
    pub fn handle(&self) -> (r: Option<u64>)
        ensures
            r == unsigned_of(self@.handle),
    {
        read_unsigned(&self.handle)
    }

    /// The `child` handle on an `accept` push.
    pub fn child(&self) -> (r: Option<u64>)
        ensures
            r == unsigned_of(self@.child),
    {
        read_unsigned(&self.child)
    }

    /// The per-connection `seqno` on an async push.
    pub fn seqno(&self) -> (r: Option<u64>)
        ensures
            r == unsigned_of(self@.seqno),
    {
        read_unsigned(&self.seqno)
    }

    /// The error code, in either case variant; 0 (Ok) if missing.
    pub fn errcode(&self) -> (r: i64)
        ensures
            r == self@.errcode(),
    {
        match read_signed(read_first(&self.err_code, &self.errcode)) {
            Some(n) => n,
            None => 0,
        }
    }

    /// The status bits on a `status` push: `flags`, else `status`, else the
    /// error code, which some engines reuse for it.
    pub fn status_flags(&self) -> (r: i64)
        ensures
            r == self@.status_flags(),
    {
        match read_signed(read_first(&self.flags, &self.status)) {
            Some(n) => n,
            None => self.errcode(),
        }
    }

    /// The error text, in either case variant.
    pub fn errtext(&self) -> (r: Option<&str>)
        ensures
            text_view(r) == self@.errtext(),
    {
        read_text(read_first(&self.err_text, &self.errtext))
    }

    /// The `data` wire string on a `recv` or `send` frame.
    pub fn data_str(&self) -> (r: Option<&str>)
        ensures
            text_view(r) == text_of(self@.data),
    {
        read_text(&self.data)
    }

    /// The `remote` address on an `accept` or on a datagram.
    pub fn remote(&self) -> (r: Option<&str>)
        ensures
            text_view(r) == text_of(self@.remote),
    {
        read_text(&self.remote)
    }

    /// The `local` address on an `accept` or on a datagram.
    pub fn local(&self) -> (r: Option<&str>)
        ensures
            text_view(r) == text_of(self@.local),
    {
        read_text(&self.local)
    }

    /// Whether a `recv` push carries a datagram: those name their sender.
    pub fn is_dgram_recv(&self) -> (r: bool)
        ensures
            r == (text_of(self@.remote) is Some),
    {
        self.remote().is_some()
    }
}

/// The keys that requests use are plain and differ from each other.
proof fn lemma_keys()
    ensures
        plain("type"@),
        plain("id"@),
        plain("pfam"@),
        plain("mode"@),
        plain("port"@),
        plain("local"@),
        plain("remote"@),
        plain("flags"@),
        plain("handle"@),
        plain("data"@),
        plain("user"@),
        plain("pass"@),
        "type"@.len() == 4,
        "id"@.len() == 2,
        "pfam"@.len() == 4,
        "mode"@.len() == 4,
        "port"@.len() == 4,
        "local"@.len() == 5,
        "remote"@.len() == 6,
        "flags"@.len() == 5,
        "handle"@.len() == 6,
        "data"@.len() == 4,
        "user"@.len() == 4,
        "pass"@.len() == 4,
        "type"@[0] == 't',
        "pfam"@[0] == 'p' && "pfam"@[1] == 'f',
        "mode"@[0] == 'm',
        "port"@[0] == 'p' && "port"@[1] == 'o',
        "local"@[0] == 'l',
        "remote"@[0] == 'r',
        "flags"@[0] == 'f',
        "handle"@[0] == 'h',
        "data"@[0] == 'd',
        "user"@[0] == 'u',
        "pass"@[0] == 'p' && "pass"@[1] == 'a',
{
    reveal_strlit("type");
    reveal_strlit("id");
    reveal_strlit("pfam");
    reveal_strlit("mode");
    reveal_strlit("port");
    reveal_strlit("local");
    reveal_strlit("remote");
    reveal_strlit("flags");
    reveal_strlit("handle");
    reveal_strlit("data");
    reveal_strlit("user");
    reveal_strlit("pass");
}

/// The members of fields that end in a string.
proof fn lemma_then_text(front: Fields, key: Seq<char>, value: Seq<char>)
    requires
        writable(front),
        plain(key),
    ensures
        writable(front + text_field(key, value)),
        members_of(front + text_field(key, value)) == members_of(front).insert(
            key,
            read_back(FieldModel::Text(value)),
        ),
{
    lemma_members_append(front, text_field(key, value));
    lemma_members_single(key, FieldModel::Text(value));
    assert(members_of(front + text_field(key, value)) =~= members_of(front).insert(
        key,
        read_back(FieldModel::Text(value)),
    ));
}

/// The members of fields that end in a number.
proof fn lemma_then_number(front: Fields, key: Seq<char>, value: u64)
    requires
        writable(front),
        plain(key),
    ensures
        writable(front + number_field(key, value)),
        members_of(front + number_field(key, value)) == members_of(front).insert(
            key,
            read_back(FieldModel::Number(value)),
        ),
{
    lemma_members_append(front, number_field(key, value));
    lemma_members_single(key, FieldModel::Number(value));
    assert(members_of(front + number_field(key, value)) =~= members_of(front).insert(
        key,
        read_back(FieldModel::Number(value)),
    ));
}

/// The members of fields that end in an optional string.
proof fn lemma_then_optional(front: Fields, key: Seq<char>, value: Option<&str>)
    requires
        writable(front),
        plain(key),
    ensures
        writable(front + optional_field(key, value)),
        members_of(front + optional_field(key, value)) == (match value {
            Some(v) => members_of(front).insert(key, read_back(FieldModel::Text(v@))),
            None => members_of(front),
        }),
{
    match value {
        Some(v) => {
            lemma_then_text(front, key, v@);
        },
        None => {
            assert(front + optional_field(key, value) =~= front);
        },
    }
}

/// The members of a request's first two fields.
proof fn lemma_head(typ: Seq<char>, id: u64)
    ensures
        writable(text_field("type"@, typ) + number_field("id"@, id)),
        members_of(text_field("type"@, typ) + number_field("id"@, id)) == map![
            "type"@ => JsonModel::Text(typ),
            "id"@ => read_back(FieldModel::Number(id)),
        ],
{
    lemma_keys();
    lemma_members_single("type"@, FieldModel::Text(typ));
    lemma_then_number(text_field("type"@, typ), "id"@, id);
    assert(members_of(text_field("type"@, typ) + number_field("id"@, id)) =~= map![
        "type"@ => JsonModel::Text(typ),
        "id"@ => read_back(FieldModel::Number(id)),
    ]);
}

/// An `open` request reads back: its type and id, both addresses and the flags,
/// and no remote address where it has none. Together with the contracts of
/// `to_json` and `Frame::parse` this says what the engine sees of it.
pub proof fn law_open_reads_back(req: OpenReq)
    ensures
        writable(req.fields()),
        ({
            let f = frame_of(members_of(req.fields()));
            &&& f.typ() == req.typ@
            &&& unsigned_of(f.id) == Some(req.id)
            &&& text_of(f.local) == Some(req.local@)
            &&& text_of(f.remote) == text_view(req.remote)
            &&& signed_of(f.flags) == Some(req.flags as i64)
            &&& f.handle is None
        }),
{
    lemma_keys();
    let f2 = text_field("type"@, req.typ@) + number_field("id"@, req.id);
    lemma_head(req.typ@, req.id);
    let f3 = f2 + text_field("pfam"@, req.pfam@);
    lemma_then_text(f2, "pfam"@, req.pfam@);
    let f4 = f3 + text_field("mode"@, req.mode@);
    lemma_then_text(f3, "mode"@, req.mode@);
    let f5 = f4 + optional_field("port"@, req.port);
    lemma_then_optional(f4, "port"@, req.port);
    let f6 = f5 + text_field("local"@, req.local@);
    lemma_then_text(f5, "local"@, req.local@);
    let f7 = f6 + optional_field("remote"@, req.remote);
    lemma_then_optional(f6, "remote"@, req.remote);
    lemma_then_number(f7, "flags"@, req.flags as u64);
}

/// A `send` request reads back, and its data is binary-safe: where it carries
/// the wire string of some bytes, decoding what was read gives those bytes.
pub proof fn law_send_reads_back(req: SendReq, bytes: Seq<u8>)
    requires
        req.data@ == wire_string(bytes),
    ensures
        writable(req.fields()),
        ({
            let f = frame_of(members_of(req.fields()));
            &&& f.typ() == req.typ@
            &&& unsigned_of(f.id) == Some(req.id)
            &&& unsigned_of(f.handle) == Some(req.handle)
            &&& text_of(f.data) == Some(req.data@)
            &&& wire_bytes(text_of(f.data)->Some_0) == bytes
        }),
{
    lemma_keys();
    law_wire_round_trip(bytes);
    let f2 = text_field("type"@, req.typ@) + number_field("id"@, req.id);
    lemma_head(req.typ@, req.id);
    let f3 = f2 + number_field("handle"@, req.handle);
    lemma_then_number(f2, "handle"@, req.handle);
    lemma_then_text(f3, "data"@, req.data@);
}

/// A datagram request reads back, with its addresses, and its data is
/// binary-safe.
pub proof fn law_sendto_reads_back(req: SendToReq, bytes: Seq<u8>)
    requires
        req.data@ == wire_string(bytes),
    ensures
        writable(req.fields()),
        ({
            let f = frame_of(members_of(req.fields()));
            &&& f.typ() == req.typ@
            &&& unsigned_of(f.id) == Some(req.id)
            &&& unsigned_of(f.handle) == Some(req.handle)
            &&& text_of(f.remote) == Some(req.remote@)
            &&& text_of(f.local) == Some(req.local@)
            &&& text_of(f.data) == Some(req.data@)
            &&& wire_bytes(text_of(f.data)->Some_0) == bytes
        }),
{
    lemma_keys();
    law_wire_round_trip(bytes);
    let f2 = text_field("type"@, req.typ@) + number_field("id"@, req.id);
    lemma_head(req.typ@, req.id);
    let f3 = f2 + number_field("handle"@, req.handle);
    lemma_then_number(f2, "handle"@, req.handle);
    let f4 = f3 + text_field("remote"@, req.remote@);
    lemma_then_text(f3, "remote"@, req.remote@);
    let f5 = f4 + text_field("local"@, req.local@);
    lemma_then_text(f4, "local"@, req.local@);
    lemma_then_text(f5, "data"@, req.data@);
}

/// The handle requests (`close`, `bind`, `listen`) and the requests without one
/// (`socket`, `auth`) read back with their type, id and handle.
pub proof fn law_requests_read_back(
    close: CloseReq,
    bind: BindReq,
    listen: ListenReq,
    socket: SocketReq,
    auth: AuthReq,
)
    ensures
        writable(close.fields()),
        writable(bind.fields()),
        writable(listen.fields()),
        writable(socket.fields()),
        writable(auth.fields()),
        ({
            let f = frame_of(members_of(close.fields()));
            f.typ() == close.typ@ && unsigned_of(f.id) == Some(close.id) && unsigned_of(f.handle)
                == Some(close.handle)
        }),
        ({
            let f = frame_of(members_of(bind.fields()));
            f.typ() == bind.typ@ && unsigned_of(f.id) == Some(bind.id) && unsigned_of(f.handle)
                == Some(bind.handle) && text_of(f.local) == Some(bind.local@)
        }),
        ({
            let f = frame_of(members_of(listen.fields()));
            f.typ() == listen.typ@ && unsigned_of(f.id) == Some(listen.id) && unsigned_of(f.handle)
                == Some(listen.handle) && signed_of(f.flags) == Some(listen.flags as i64)
        }),
        ({
            let f = frame_of(members_of(socket.fields()));
            f.typ() == socket.typ@ && unsigned_of(f.id) == Some(socket.id) && f.handle is None
        }),
        ({
            let f = frame_of(members_of(auth.fields()));
            f.typ() == auth.typ@ && unsigned_of(f.id) == Some(auth.id) && f.handle is None
        }),
{
    lemma_keys();
    lemma_head(close.typ@, close.id);
    lemma_then_number(
        text_field("type"@, close.typ@) + number_field("id"@, close.id),
        "handle"@,
        close.handle,
    );
    let b2 = text_field("type"@, bind.typ@) + number_field("id"@, bind.id);
    lemma_head(bind.typ@, bind.id);
    let b3 = b2 + number_field("handle"@, bind.handle);
    lemma_then_number(b2, "handle"@, bind.handle);
    let b4 = b3 + text_field("local"@, bind.local@);
    lemma_then_text(b3, "local"@, bind.local@);
    lemma_then_optional(b4, "port"@, bind.port);
    let l2 = text_field("type"@, listen.typ@) + number_field("id"@, listen.id);
    lemma_head(listen.typ@, listen.id);
    let l3 = l2 + number_field("handle"@, listen.handle);
    lemma_then_number(l2, "handle"@, listen.handle);
    lemma_then_number(l3, "flags"@, listen.flags as u64);
    let s2 = text_field("type"@, socket.typ@) + number_field("id"@, socket.id);
    lemma_head(socket.typ@, socket.id);
    let s3 = s2 + text_field("pfam"@, socket.pfam@);
    lemma_then_text(s2, "pfam"@, socket.pfam@);
    lemma_then_text(s3, "mode"@, socket.mode@);
    let a2 = text_field("type"@, auth.typ@) + number_field("id"@, auth.id);
    lemma_head(auth.typ@, auth.id);
    let a3 = a2 + text_field("user"@, auth.user@);
    lemma_then_text(a2, "user"@, auth.user@);
    lemma_then_text(a3, "pass"@, auth.pass@);
}

/// A chunk of data always fits a frame: no `send` of a chunk is ever refused for
/// its size, whatever bytes it carries.
pub proof fn law_send_fits_a_frame(req: SendReq, chunk: Seq<u8>)
    requires
        req.typ@ == "send"@,
        req.data@ == wire_string(chunk),
        chunk.len() <= MAX_SEND_CHUNK,
    ensures
        encode_utf8(object_text(req.fields())).len() <= MAX_FRAME,
{
    lemma_keys();
    reveal_strlit("send");
    let fields = req.fields();
    assert(fields.drop_last() =~= text_field("type"@, req.typ@) + number_field("id"@, req.id)
        + number_field("handle"@, req.handle));
    assert(fields.drop_last().drop_last() =~= text_field("type"@, req.typ@) + number_field(
        "id"@,
        req.id,
    ));
    assert(fields.drop_last().drop_last().drop_last() =~= text_field("type"@, req.typ@));
    assert(text_field("type"@, req.typ@).drop_last() =~= Seq::<(Seq<char>, FieldModel)>::empty());
    reveal_with_fuel(members_size, 6);
    lemma_text_size("type"@, req.typ@);
    lemma_number_size("id"@, req.id);
    lemma_number_size("handle"@, req.handle);
    lemma_text_size("data"@, req.data@);
    lemma_object_size(fields);
}

} // verus!
