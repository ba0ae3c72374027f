//! JSON objects: what a received document holds, and the text of a request.
//!
//! Parsing a document and quoting a string are `serde_json`'s work. What the
//! protocol reads of a document is carried as plain values (`Json`).

use vstd::prelude::*;
use vstd::utf8::{
    encode_scalar, encode_utf8, has_width_2_encoding, is_ascii_chars, is_ascii_chars_encode_utf8,
};

use crate::text::{
    decimal, lemma_decimal, lemma_decimal_len, lemma_utf8_concat, push_char,
    push_decimal,
};

verus! {

/// A parsed JSON value; opaque.
#[verifier::external_type_specification]
#[verifier::external_body]
pub struct ExValue(serde_json::Value);

/// A parse or serialisation error; opaque.
#[verifier::external_type_specification]
#[verifier::external_body]
pub struct ExError(serde_json::Error);

/// What the protocol can see of one member of a JSON object. A number is held
/// by its integer readings; of an array or a nested object only the kind is kept.
#[derive(Debug)]
pub enum Json {
    Null,
    Bool(bool),
    Number(Option<u64>, Option<i64>),
    Text(String),
    Array,
    Object,
}

/// The mathematical value of a `Json`.
#[verifier::ext_equal]
pub enum JsonModel {
    Null,
    Bool(bool),
    Number(Option<u64>, Option<i64>),
    Text(Seq<char>),
    Array,
    Object,
}

impl View for Json {
    type V = JsonModel;

    open spec fn view(&self) -> JsonModel {
        match *self {
            Json::Null => JsonModel::Null,
            Json::Bool(b) => JsonModel::Bool(b),
            Json::Number(u, i) => JsonModel::Number(u, i),
            Json::Text(s) => JsonModel::Text(s@),
            Json::Array => JsonModel::Array,
            Json::Object => JsonModel::Object,
        }
    }
}

impl Clone for Json {
    fn clone(&self) -> (r: Json)
        ensures
            r@ == self@,
    {
        match self {
            Json::Null => Json::Null,
            Json::Bool(b) => Json::Bool(*b),
            Json::Number(u, i) => Json::Number(*u, *i),
            Json::Text(s) => Json::Text(s.clone()),
            Json::Array => Json::Array,
            Json::Object => Json::Object,
        }
    }
}

/// A value that a request can carry.
#[verifier::ext_equal]
pub enum FieldModel {
    Text(Seq<char>),
    Number(u64),
}

/// The members of an object, in the order in which they are written.
pub type Fields = Seq<(Seq<char>, FieldModel)>;

/// The lower-case hexadecimal digit for a number below sixteen.
pub open spec fn hex_digit(n: int) -> char {
    if n < 10 {
        (48 + n) as char
    } else {
        (87 + n) as char
    }
}

/// What stands for a character inside a JSON string literal: a quote, a
/// backslash and the control characters are escaped, all else stands for itself.
pub open spec fn json_escape(c: char) -> Seq<char> {
    if c == '"' || c == '\\' {
        seq!['\\', c]
    } else if c as u32 == 0x08 {
        seq!['\\', 'b']
    } else if c as u32 == 0x09 {
        seq!['\\', 't']
    } else if c as u32 == 0x0A {
        seq!['\\', 'n']
    } else if c as u32 == 0x0C {
        seq!['\\', 'f']
    } else if c as u32 == 0x0D {
        seq!['\\', 'r']
    } else if (c as u32) < 0x20 {
        seq!['\\', 'u', '0', '0', hex_digit(c as int / 16), hex_digit(c as int % 16)]
    } else {
        seq![c]
    }
}

/// The escapes of a text, one after the other.
pub open spec fn json_escapes(s: Seq<char>) -> Seq<char>
    decreases s.len(),
{
    if s.len() == 0 {
        Seq::empty()
    } else {
        json_escapes(s.drop_last()) + json_escape(s.last())
    }
}

/// The JSON string literal for a text.
pub open spec fn json_string(s: Seq<char>) -> Seq<char> {
    seq!['"'] + json_escapes(s) + seq!['"']
}

/// The JSON text of a field's value.
pub open spec fn value_text(v: FieldModel) -> Seq<char> {
    match v {
        FieldModel::Text(s) => json_string(s),
        FieldModel::Number(n) => decimal(n as nat),
    }
}

/// The JSON text of one member.
pub open spec fn member_text(f: (Seq<char>, FieldModel)) -> Seq<char> {
    seq!['"'] + f.0 + seq!['"', ':'] + value_text(f.1)
}

/// Members, separated by commas.
pub open spec fn members_text(fields: Fields) -> Seq<char>
    decreases fields.len(),
{
    if fields.len() == 0 {
        Seq::empty()
    } else if fields.len() == 1 {
        member_text(fields[0])
    } else {
        members_text(fields.drop_last()) + seq![','] + member_text(fields.last())
    }
}

/// The JSON text of an object with these members.
pub open spec fn object_text(fields: Fields) -> Seq<char> {
    seq!['{'] + members_text(fields) + seq!['}']
}

/// A key that needs no escapes: printable ASCII without quote and backslash.
pub open spec fn plain(s: Seq<char>) -> bool {
    forall|i: int|
        0 <= i < s.len() ==> 0x20 <= (#[trigger] s[i]) as u32 <= 0x7E && s[i] != '"' && s[i]
            != '\\'
}

/// Every key is plain.
pub open spec fn writable(fields: Fields) -> bool {
    forall|i: int| 0 <= i < fields.len() ==> plain((#[trigger] fields[i]).0)
}

/// How a written value reads back.
pub open spec fn read_back(v: FieldModel) -> JsonModel {
    match v {
        FieldModel::Text(s) => JsonModel::Text(s),
        FieldModel::Number(n) => JsonModel::Number(
            Some(n),
            if n <= i64::MAX {
                Some(n as i64)
            } else {
                None
            },
        ),
    }
}

/// The members of an object that was written with these fields; of two with the
/// same key the later one counts.
pub open spec fn members_of(fields: Fields) -> Map<Seq<char>, JsonModel>
    decreases fields.len(),
{
    if fields.len() == 0 {
        Map::empty()
    } else {
        members_of(fields.drop_last()).insert(fields.last().0, read_back(fields.last().1))
    }
}

/// The members of a parsed JSON value: those of an object, and none of anything
/// else.
pub uninterp spec fn json_members(v: serde_json::Value) -> Map<Seq<char>, JsonModel>;

/// The members of the JSON document that these bytes are, or `None` where they
/// are no JSON document.
pub uninterp spec fn json_document(bytes: Seq<u8>) -> Option<Map<Seq<char>, JsonModel>>;

/// Parses a document with `serde_json::from_slice::<serde_json::Value>`. Whether
/// it succeeds, and which members the value then has, is a function of the bytes
/// alone. The UTF-8 text of an object with plain keys and with strings and unsigned
/// integers as values parses to exactly those members. Which other byte strings
/// are JSON documents is not stated.
#[verifier::external_body]
pub(crate) fn json_from_slice(bytes: &[u8]) -> (r: Result<serde_json::Value, serde_json::Error>)
    ensures
        r is Ok <==> json_document(bytes@) is Some,
        r matches Ok(v) ==> json_document(bytes@) == Some(json_members(v)),
        forall|fields: Fields|
            writable(fields) && bytes@ == encode_utf8(#[trigger] object_text(fields)) ==> r is Ok
                && json_members(r->Ok_0) == members_of(fields),
{
    serde_json::from_slice(bytes)
}

/// Looks a member up with `serde_json::Value::get`, and carries its value over
/// variant by variant; a number by `Number::as_u64` and `Number::as_i64`.
#[verifier::external_body]
pub(crate) fn json_get(v: &serde_json::Value, key: &str) -> (r: Option<Json>)
    ensures
        match r {
            Some(j) => json_members(*v).contains_key(key@) && json_members(*v)[key@] == j@,
            None => !json_members(*v).contains_key(key@),
        },
{
    match v.get(key) {
        None => None,
        Some(serde_json::Value::Null) => Some(Json::Null),
        Some(serde_json::Value::Bool(b)) => Some(Json::Bool(*b)),
        Some(serde_json::Value::Number(n)) => Some(Json::Number(n.as_u64(), n.as_i64())),
        Some(serde_json::Value::String(s)) => Some(Json::Text(s.clone())),
        Some(serde_json::Value::Array(_)) => Some(Json::Array),
        Some(serde_json::Value::Object(_)) => Some(Json::Object),
    }
}

/// Writes a JSON string literal with `serde_json::to_string::<str>`, which
/// escapes quotes, backslashes and control characters, leaves all else as it is,
/// and does not fail on a string.
#[verifier::external_body]
fn json_quote(s: &str) -> (r: Result<String, serde_json::Error>)
    ensures
        r is Ok,
        r->Ok_0@ == json_string(s@),
{
    serde_json::to_string(s)
}

/// Collects the text of a JSON object, member by member.
pub(crate) struct ObjectWriter {
    text: String,
    empty: bool,
    fields: Ghost<Fields>,
}

impl ObjectWriter {
    /// The members written so far.
    pub closed spec fn written(self) -> Fields {
        self.fields@
    }

    /// The text is an opening brace and the members written so far.
    pub closed spec fn wf(self) -> bool {
        &&& self.text@ == seq!['{'] + members_text(self.fields@)
        &&& self.empty == (self.fields@.len() == 0)
    }

    pub(crate) fn new() -> (r: ObjectWriter)
        ensures
            r.wf(),
            r.written() == Seq::<(Seq<char>, FieldModel)>::empty(),
    {
        let mut text = String::new();
        push_char(&mut text, '{');
        let r = ObjectWriter { text, empty: true, fields: Ghost(Seq::empty()) };
        assert(r.text@ =~= seq!['{'] + members_text(r.fields@));
        r
    }

    /// Writes the separator and the key of a member.
    fn key(&mut self, key: &str)
        requires
            old(self).wf(),
        ensures
            final(self).fields == old(self).fields,
            !final(self).empty,
            final(self).text@ == seq!['{'] + members_text(old(self).fields@) + (
            if old(self).fields@.len() == 0 {
                Seq::<char>::empty()
            } else {
                seq![',']
            }) + (seq!['"'] + key@ + seq!['"', ':']),
    {
        if !self.empty {
            push_char(&mut self.text, ',');
        }
        self.empty = false;
        push_char(&mut self.text, '"');
        self.text.append(key);
        push_char(&mut self.text, '"');
        push_char(&mut self.text, ':');
        assert(self.text@ =~= seq!['{'] + members_text(old(self).fields@) + (
        if old(self).fields@.len() == 0 {
            Seq::<char>::empty()
        } else {
            seq![',']
        }) + (seq!['"'] + key@ + seq!['"', ':']));
    }

    /// Writes a member with a string value.
    pub(crate) fn text(&mut self, key: &str, value: &str) -> (r: Result<(), serde_json::Error>)
        requires
            old(self).wf(),
        ensures
            r is Ok,
            final(self).wf(),
            final(self).written() == old(self).written().push((key@, FieldModel::Text(value@))),
    {
        let quoted = match json_quote(value) {
            Ok(q) => q,
            Err(e) => {
                return Err(e);
            },
        };
        self.key(key);
        self.text.append(quoted.as_str());
        proof {
            lemma_members_push(old(self).fields@, (key@, FieldModel::Text(value@)));
        }
        self.fields = Ghost(self.fields@.push((key@, FieldModel::Text(value@))));
        assert(self.text@ =~= seq!['{'] + members_text(self.fields@));
        Ok(())
    }

    /// Writes a member with a number for its value.
    pub(crate) fn number(&mut self, key: &str, value: u64)
        requires
            old(self).wf(),
        ensures
            final(self).wf(),
            final(self).written() == old(self).written().push((key@, FieldModel::Number(value))),
    {
        self.key(key);
        push_decimal(&mut self.text, value);
        proof {
            lemma_members_push(old(self).fields@, (key@, FieldModel::Number(value)));
        }
        self.fields = Ghost(self.fields@.push((key@, FieldModel::Number(value))));
        assert(self.text@ =~= seq!['{'] + members_text(self.fields@));
    }

    /// Closes the object and hands out its bytes.
    pub(crate) fn finish(self) -> (r: Vec<u8>)
        requires
            self.wf(),
        ensures
            r@ == encode_utf8(object_text(self.written())),
    {
        let mut text = self.text;
        push_char(&mut text, '}');
        assert(text@ =~= object_text(self.written()));
        let bytes = text.as_str().as_bytes();
        vstd::slice::slice_to_vec(bytes)
    }
}

/// Writing one more member appends it, after a comma unless it is the first.
pub proof fn lemma_members_push(fields: Fields, f: (Seq<char>, FieldModel))
    ensures
        members_text(fields.push(f)) == members_text(fields) + (if fields.len() == 0 {
            Seq::<char>::empty()
        } else {
            seq![',']
        }) + member_text(f),
{
    assert(fields.push(f).drop_last() =~= fields);
    assert(members_text(fields.push(f)) =~= members_text(fields) + (if fields.len() == 0 {
        Seq::<char>::empty()
    } else {
        seq![',']
    }) + member_text(f));
}

/// The members of a concatenation: those of the second part count.
pub proof fn lemma_members_append(a: Fields, b: Fields)
    ensures
        members_of(a + b) == members_of(a).union_prefer_right(members_of(b)),
    decreases b.len(),
{
    if b.len() == 0 {
        assert(a + b =~= a);
        assert(members_of(a).union_prefer_right(members_of(b)) =~= members_of(a));
    } else {
        lemma_members_append(a, b.drop_last());
        assert((a + b).drop_last() =~= a + b.drop_last());
        assert((a + b).last() == b.last());
        assert(members_of(a + b) =~= members_of(a).union_prefer_right(members_of(b)));
    }
}

/// The members of an object with one field.
pub proof fn lemma_members_single(key: Seq<char>, value: FieldModel)
    ensures
        members_of(seq![(key, value)]) == map![key => read_back(value)],
{
    let fields: Fields = seq![(key, value)];
    assert(fields.drop_last() =~= Seq::<(Seq<char>, FieldModel)>::empty());
    assert(members_of(fields.drop_last()) =~= Map::<Seq<char>, JsonModel>::empty());
    assert(members_of(fields) =~= map![key => read_back(value)]);
}

/// A bound on the bytes of an object's members, each with its separator.
pub open spec fn members_size(fields: Fields) -> nat
    decreases fields.len(),
{
    if fields.len() == 0 {
        0
    } else {
        members_size(fields.drop_last()) + 1 + encode_utf8(member_text(fields.last())).len()
    }
}

pub proof fn lemma_ascii_len(s: Seq<char>)
    requires
        is_ascii_chars(s),
    ensures
        encode_utf8(s).len() == s.len(),
{
    is_ascii_chars_encode_utf8(s);
}

proof fn lemma_members_size(fields: Fields)
    ensures
        encode_utf8(members_text(fields)).len() <= members_size(fields),
    decreases fields.len(),
{
    if fields.len() == 0 {
    } else if fields.len() == 1 {
    } else {
        lemma_members_size(fields.drop_last());
        let front = members_text(fields.drop_last());
        lemma_ascii_len(seq![',']);
        lemma_utf8_concat(front, seq![',']);
        lemma_utf8_concat(front + seq![','], member_text(fields.last()));
    }
}

/// The bytes of an object: its braces and its members.
pub proof fn lemma_object_size(fields: Fields)
    ensures
        encode_utf8(object_text(fields)).len() <= 2 + members_size(fields),
{
    lemma_members_size(fields);
    lemma_ascii_len(seq!['{']);
    lemma_ascii_len(seq!['}']);
    lemma_utf8_concat(seq!['{'], members_text(fields));
    lemma_utf8_concat(seq!['{'] + members_text(fields), seq!['}']);
}

proof fn lemma_printable(c: char)
    requires
        0x20 <= c as u32 <= 0x7E,
    ensures
        '\0' <= c <= '\u{7f}',
{
}

/// The bytes of a member with a plain key.
proof fn lemma_member_size(key: Seq<char>, value: FieldModel)
    requires
        plain(key),
    ensures
        encode_utf8(member_text((key, value))).len() == key.len() + 3 + encode_utf8(
            value_text(value),
        ).len(),
{
    assert(is_ascii_chars(seq!['"'] + key + seq!['"', ':'])) by {
        let t = seq!['"'] + key + seq!['"', ':'];
        assert forall|i: int| 0 <= i < t.len() implies '\0' <= #[trigger] t[i] <= '\u{7f}' by {
            if 1 <= i < 1 + key.len() {
                assert(t[i] == key[i - 1]);
                lemma_printable(key[i - 1]);
            }
        }
    }
    lemma_ascii_len(seq!['"'] + key + seq!['"', ':']);
    lemma_utf8_concat(seq!['"'] + key + seq!['"', ':'], value_text(value));
}

/// The bytes of a number member.
pub proof fn lemma_number_size(key: Seq<char>, value: u64)
    requires
        plain(key),
    ensures
        encode_utf8(member_text((key, FieldModel::Number(value)))).len() <= key.len() + 23,
{
    lemma_member_size(key, FieldModel::Number(value));
    lemma_decimal(value as nat);
    assert(is_ascii_chars(decimal(value as nat)));
    lemma_ascii_len(decimal(value as nat));
    assert(value < vstd::arithmetic::power::pow(10, 20)) by {
        assert(vstd::arithmetic::power::pow(10, 20) == 100_000_000_000_000_000_000) by {
            reveal_with_fuel(vstd::arithmetic::power::pow, 21);
        }
    }
    lemma_decimal_len(value as nat, 20);
}

/// The bytes of the escape of a Latin-1 character.
proof fn lemma_escape_size(c: char)
    requires
        c as u32 <= 0xFF,
    ensures
        encode_utf8(json_escape(c)).len() <= 6,
{
    if (c as u32) < 0x80 {
        assert(is_ascii_chars(json_escape(c)));
        lemma_ascii_len(json_escape(c));
    } else {
        let s = seq![c];
        assert(json_escape(c) == s);
        assert(s.drop_first() =~= Seq::<char>::empty());
        assert(encode_utf8(s.drop_first()).len() == 0);
        assert(has_width_2_encoding(c as u32));
        assert(encode_utf8(s) =~= encode_scalar(c as u32) + encode_utf8(s.drop_first()));
    }
}

proof fn lemma_escapes_size(s: Seq<char>)
    requires
        forall|i: int| 0 <= i < s.len() ==> (#[trigger] s[i]) as u32 <= 0xFF,
    ensures
        encode_utf8(json_escapes(s)).len() <= 6 * s.len(),
    decreases s.len(),
{
    if s.len() > 0 {
        lemma_escapes_size(s.drop_last());
        lemma_escape_size(s.last());
        lemma_utf8_concat(json_escapes(s.drop_last()), json_escape(s.last()));
    }
}

/// The bytes of a string member whose value is Latin-1 text.
pub proof fn lemma_text_size(key: Seq<char>, value: Seq<char>)
    requires
        plain(key),
        forall|i: int| 0 <= i < value.len() ==> (#[trigger] value[i]) as u32 <= 0xFF,
    ensures
        encode_utf8(member_text((key, FieldModel::Text(value)))).len() <= key.len() + 5 + 6
            * value.len(),
{
    lemma_member_size(key, FieldModel::Text(value));
    lemma_escapes_size(value);
    lemma_ascii_len(seq!['"']);
    lemma_utf8_concat(seq!['"'], json_escapes(value));
    lemma_utf8_concat(seq!['"'] + json_escapes(value), seq!['"']);
}

} // verus!
