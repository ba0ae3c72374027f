//! The port file (axports) and the map from user ids to callsigns.
//!
//! A port line reads `name callsign speed paclen window description`. Every
//! well-formed line is an active port; no network device has to exist for it.

use vstd::prelude::*;
use vstd::slice::slice_subrange;

use super::addr::{
    comparison, encode_entry, entry_of, null_ax25_address, same_address, Ax25Address,
};
use crate::rhp::messages::string_view;
use crate::text::{
    char_lists_view, drop_spaces, from_chars, lemma_skip_step, lines, parse_i32, parsed_i32,
    same_chars, same_ignoring_case, same_text, same_text_ignoring_case, skip_spaces, split_lines,
    to_chars, trim_end, trim_start, upper_chars, upper_text,
};

verus! {

/// The port file, unless another is configured.
pub fn axports_path(configured: Option<String>) -> (r: String)
    ensures
        r@ == (match configured {
            Some(p) => p@,
            None => "/etc/ax25/axports"@,
        }),
{
    match configured {
        Some(p) => p,
        None => "/etc/ax25/axports".to_owned(),
    }
}

/// The map from user ids to callsigns, unless another is configured.
pub fn calls_path(configured: Option<String>) -> (r: String)
    ensures
        r@ == (match configured {
            Some(p) => p@,
            None => "/etc/ax25/ax25_calls"@,
        }),
{
    match configured {
        Some(p) => p,
        None => "/etc/ax25/ax25_calls".to_owned(),
    }
}

/// One port.
#[derive(Debug, Clone, PartialEq)]
pub struct ParsedPort {
    pub name: String,
    /// In capitals, without a trailing "-0".
    pub call: String,
    pub baud: i32,
    pub paclen: i32,
    pub window: i32,
    pub description: String,
}

/// The mathematical value of a `ParsedPort`.
#[verifier::ext_equal]
pub struct PortModel {
    pub name: Seq<char>,
    pub call: Seq<char>,
    pub baud: i32,
    pub paclen: i32,
    pub window: i32,
    pub description: Seq<char>,
}

impl View for ParsedPort {
    type V = PortModel;

    open spec fn view(&self) -> PortModel {
        PortModel {
            name: self.name@,
            call: self.call@,
            baud: self.baud,
            paclen: self.paclen,
            window: self.window,
            description: self.description@,
        }
    }
}

/// The values of a list of ports.
pub open spec fn ports_view(v: Seq<ParsedPort>) -> Seq<PortModel> {
    v.map_values(|p: ParsedPort| p@)
}

/// The callsign of a user.
#[derive(Debug, Clone, PartialEq)]
pub struct CallEntry {
    pub uid: i32,
    pub call: String,
}

/// The mathematical value of a `CallEntry`.
#[verifier::ext_equal]
pub struct CallModel {
    pub uid: i32,
    pub call: Seq<char>,
}

impl View for CallEntry {
    type V = CallModel;

    open spec fn view(&self) -> CallModel {
        CallModel { uid: self.uid, call: self.call@ }
    }
}

/// The values of a list of users' callsigns.
pub open spec fn calls_view(v: Seq<CallEntry>) -> Seq<CallModel> {
    v.map_values(|c: CallEntry| c@)
}

/// A line without the carriage returns at its end.
pub open spec fn strip_cr(s: Seq<char>) -> Seq<char>
    decreases s.len(),
{
    if s.len() > 0 && s.last() == '\r' {
        strip_cr(s.drop_last())
    } else {
        s
    }
}

/// What a line says: without white space at its front, and nothing where it is
/// blank or a comment.
pub open spec fn content_of(line: Seq<char>) -> Option<Seq<char>> {
    let l = trim_start(strip_cr(line));
    if l.len() == 0 || l[0] == '#' {
        None
    } else {
        Some(l)
    }
}

/// How many characters stand before the first space or tab.
pub open spec fn token_len(s: Seq<char>) -> nat
    decreases s.len(),
{
    if s.len() > 0 && s[0] != ' ' && s[0] != '\t' {
        1 + token_len(s.drop_first())
    } else {
        0
    }
}

/// The first field of a line and what follows it.
pub open spec fn first_token(s: Seq<char>) -> Option<(Seq<char>, Seq<char>)> {
    let t = trim_start(s);
    if t.len() == 0 {
        None
    } else {
        Some((t.take(token_len(t) as int), t.skip(token_len(t) as int)))
    }
}

/// A port's callsign: in capitals, without a trailing "-0".
pub open spec fn port_call(s: Seq<char>) -> Seq<char> {
    let u = upper_text(s);
    if u.len() >= 2 && u[u.len() - 2] == '-' && u[u.len() - 1] == '0' {
        u.take(u.len() - 2)
    } else {
        u
    }
}

/// A number field, with a default where it is none.
pub open spec fn number_or(s: Seq<char>, default: i32) -> i32 {
    match parsed_i32(s) {
        Some(n) => n,
        None => default,
    }
}

/// The six fields of a line, the last one being the rest without white space
/// around it.
pub open spec fn six_fields(s: Seq<char>) -> Option<Seq<Seq<char>>> {
    match first_token(s) {
        None => None,
        Some((a, s1)) => match first_token(s1) {
            None => None,
            Some((b, s2)) => match first_token(s2) {
                None => None,
                Some((c, s3)) => match first_token(s3) {
                    None => None,
                    Some((d, s4)) => match first_token(s4) {
                        None => None,
                        Some((e, s5)) => Some(seq![a, b, c, d, e, trim_end(trim_start(s5))]),
                    },
                },
            },
        },
    }
}

/// The port that a line describes. It needs all six fields, a speed that is not
/// negative, a packet length and a window that are positive, and a callsign that
/// can be encoded.
pub open spec fn port_line(line: Seq<char>) -> Option<PortModel> {
    match content_of(line) {
        None => None,
        Some(l) => match six_fields(l) {
            None => None,
            Some(f) => {
                let p = PortModel {
                    name: f[0],
                    call: port_call(f[1]),
                    baud: number_or(f[2], -1i32),
                    paclen: number_or(f[3], 0),
                    window: number_or(f[4], 0),
                    description: f[5],
                };
                if p.description.len() > 0 && p.baud >= 0 && p.paclen > 0 && p.window > 0
                    && entry_of(p.call) is Some {
                    Some(p)
                } else {
                    None
                }
            },
        },
    }
}

/// Two ports cannot both be there: same name up to case, or same callsign.
pub open spec fn clash(p: PortModel, q: PortModel) -> bool {
    same_ignoring_case(p.name, q.name) || p.call == q.call
}

/// A port clashes with one of a list.
pub open spec fn clashes(ports: Seq<PortModel>, q: PortModel) -> bool {
    exists|i: int| 0 <= i < ports.len() && clash(#[trigger] ports[i], q)
}

/// The ports that lines describe, in order; of clashing ones the first.
pub open spec fn ports_of(ls: Seq<Seq<char>>) -> Seq<PortModel>
    decreases ls.len(),
{
    if ls.len() == 0 {
        Seq::empty()
    } else {
        let before = ports_of(ls.drop_last());
        match port_line(ls.last()) {
            Some(p) => if clashes(before, p) {
                before
            } else {
                before.push(p)
            },
            None => before,
        }
    }
}

/// The user's callsign that a line gives.
pub open spec fn call_line(line: Seq<char>) -> Option<CallModel> {
    match content_of(line) {
        None => None,
        Some(l) => match first_token(l) {
            None => None,
            Some((u, s1)) => match first_token(s1) {
                None => None,
                Some((c, _)) => match parsed_i32(u) {
                    Some(uid) => if entry_of(upper_text(c)) is Some {
                        Some(CallModel { uid, call: upper_text(c) })
                    } else {
                        None
                    },
                    None => None,
                },
            },
        },
    }
}

/// A user has a callsign already.
pub open spec fn has_uid(calls: Seq<CallModel>, uid: i32) -> bool {
    exists|i: int| 0 <= i < calls.len() && (#[trigger] calls[i]).uid == uid
}

/// The callsigns that lines give, in order; of two for one user the first.
pub open spec fn calls_of(ls: Seq<Seq<char>>) -> Seq<CallModel>
    decreases ls.len(),
{
    if ls.len() == 0 {
        Seq::empty()
    } else {
        let before = calls_of(ls.drop_last());
        match call_line(ls.last()) {
            Some(c) => if has_uid(before, c.uid) {
                before
            } else {
                before.push(c)
            },
            None => before,
        }
    }
}

/// The bounds of what a line says.
fn line_content(line: &[char]) -> (r: Option<(usize, usize)>)
    ensures
        match r {
            Some((a, b)) => a <= b <= line@.len() && content_of(line@) == Some(
                line@.subrange(a as int, b as int),
            ),
            None => content_of(line@) is None,
        },
{
    let mut end: usize = line.len();
    assert(line@.take(end as int) =~= line@);
    while end > 0 && line[end - 1] == '\r'
        invariant
            end <= line@.len(),
            strip_cr(line@) == strip_cr(line@.take(end as int)),
        decreases end,
    {
        assert(line@.take(end as int).drop_last() =~= line@.take(end - 1));
        end -= 1;
    }
    let stripped = slice_subrange(line, 0, end);
    assert(stripped@ =~= line@.take(end as int));
    let start: usize = skip_spaces(stripped, 0);
    assert(stripped@.skip(0) =~= stripped@);
    assert(stripped@.skip(start as int) =~= line@.subrange(start as int, end as int));
    if start == end || line[start] == '#' {
        return None;
    }
    Some((start, end))
}

/// The bounds of the first field from an index on.
fn pop_token(s: &[char], from: usize) -> (r: Option<(usize, usize)>)
    requires
        from <= s@.len(),
    ensures
        match r {
            Some((a, b)) => from <= a <= b <= s@.len() && first_token(s@.skip(from as int)) == Some(
                (s@.subrange(a as int, b as int), s@.skip(b as int)),
            ),
            None => first_token(s@.skip(from as int)) is None,
        },
{
    let start: usize = skip_spaces(s, from);
    let ghost t = s@.skip(start as int);
    if start == s.len() {
        return None;
    }
    let mut end: usize = start;
    while end < s.len() && s[end] != ' ' && s[end] != '\t'
        invariant
            start <= end <= s@.len(),
            t == s@.skip(start as int),
            token_len(t) == end - start + token_len(s@.skip(end as int)),
        decreases s@.len() - end,
    {
        proof {
            lemma_skip_step(s@, end as int);
        }
        end += 1;
    }
    proof {
        assert(end < s@.len() ==> s@.skip(end as int)[0] == s@[end as int]);
        assert(token_len(s@.skip(end as int)) == 0);
        assert(s@.subrange(start as int, end as int) =~= t.take(token_len(t) as int));
        assert(t.skip(token_len(t) as int) =~= s@.skip(end as int));
    }
    Some((start, end))
}

/// A port's callsign.
fn read_port_call(s: &[char]) -> (r: Vec<char>)
    ensures
        r@ == port_call(s@),
{
    let up = upper_chars(s);
    let n: usize = up.len();
    if n >= 2 && up[n - 2] == '-' && up[n - 1] == '0' {
        let r = vstd::slice::slice_to_vec(slice_subrange(up.as_slice(), 0, n - 2));
        assert(r@ =~= port_call(s@));
        r
    } else {
        up
    }
}

/// A number field, with a default where it is none.
fn read_number(s: &[char], default: i32) -> (r: i32)
    ensures
        r == number_or(s@, default),
{
    match parse_i32(s) {
        Some(n) => n,
        None => default,
    }
}

/// Reads one line of the port file.
fn parse_port_line(line: &[char]) -> (r: Option<ParsedPort>)
    ensures
        match r {
            Some(p) => port_line(line@) == Some(p@),
            None => port_line(line@) is None,
        },
{
    let (a, b) = match line_content(line) {
        Some(bounds) => bounds,
        None => {
            return None;
        },
    };
    let l = slice_subrange(line, a, b);
    assert(l@.skip(0) =~= l@);
    let (n0, n1) = match pop_token(l, 0) {
        Some(t) => t,
        None => {
            return None;
        },
    };
    let (c0, c1) = match pop_token(l, n1) {
        Some(t) => t,
        None => {
            return None;
        },
    };
    let (s0, s1) = match pop_token(l, c1) {
        Some(t) => t,
        None => {
            return None;
        },
    };
    let (p0, p1) = match pop_token(l, s1) {
        Some(t) => t,
        None => {
            return None;
        },
    };
    let (w0, w1) = match pop_token(l, p1) {
        Some(t) => t,
        None => {
            return None;
        },
    };
    let d0: usize = skip_spaces(l, w1);
    let d1: usize = drop_spaces(l, d0, l.len());
    assert(l@.subrange(d0 as int, l@.len() as int) =~= l@.skip(d0 as int));
    let ghost f = six_fields(l@)->Some_0;
    if d0 == d1 {
        assert(f[5].len() == 0);
        return None;
    }
    let baud: i32 = read_number(slice_subrange(l, s0, s1), -1);
    let paclen: i32 = read_number(slice_subrange(l, p0, p1), 0);
    let window: i32 = read_number(slice_subrange(l, w0, w1), 0);
    if baud < 0 || paclen <= 0 || window <= 0 {
        return None;
    }
    let call = from_chars(read_port_call(slice_subrange(l, c0, c1)).as_slice());
    if encode_entry(call.as_str()).is_none() {
        return None;
    }
    Some(
        ParsedPort {
            name: from_chars(slice_subrange(l, n0, n1)),
            call,
            baud,
            paclen,
            window,
            description: from_chars(slice_subrange(l, d0, d1)),
        },
    )
}

/// Whether a port clashes with one that is already there.
fn has_clash(ports: &Vec<ParsedPort>, q: &ParsedPort) -> (r: bool)
    ensures
        r == clashes(ports_view(ports@), q@),
{
    let mut i: usize = 0;
    while i < ports.len()
        invariant
            i <= ports@.len(),
            forall|k: int| 0 <= k < i ==> !clash(#[trigger] ports_view(ports@)[k], q@),
        decreases ports@.len() - i,
    {
        assert(ports_view(ports@)[i as int] == ports@[i as int]@);
        if same_text_ignoring_case(ports[i].name.as_str(), q.name.as_str()) || same_text(
            ports[i].call.as_str(),
            q.call.as_str(),
        ) {
            assert(clash(ports_view(ports@)[i as int], q@));
            return true;
        }
        i += 1;
    }
    false
}

/// Reads a port file. Lines that are not well formed, and ports that clash with
/// an earlier one, are left out.
pub fn parse_axports(content: &str) -> (r: Vec<ParsedPort>)
    ensures
        ports_view(r@) == ports_of(lines(content@)),
{
    let chars = to_chars(content);
    let ls = split_lines(chars.as_slice());
    let ghost all = lines(content@);
    let mut out: Vec<ParsedPort> = Vec::new();
    let mut i: usize = 0;
    assert(ports_view(out@) =~= ports_of(all.take(0)));
    while i < ls.len()
        invariant
            i <= ls@.len(),
            char_lists_view(ls@) == all,
            ports_view(out@) == ports_of(all.take(i as int)),
        decreases ls@.len() - i,
    {
        assert(all.take(i + 1).drop_last() =~= all.take(i as int));
        assert(all[i as int] == ls@[i as int]@);
        let ghost before = out@;
        match parse_port_line(ls[i].as_slice()) {
            Some(p) => {
                if !has_clash(&out, &p) {
                    out.push(p);
                    assert(ports_view(out@) =~= ports_view(before).push(p@));
                }
            },
            None => {},
        }
        i += 1;
    }
    assert(all.take(i as int) =~= all);
    out
}

/// Reads one line of the map from user ids to callsigns.
fn parse_call_line(line: &[char]) -> (r: Option<CallEntry>)
    ensures
        match r {
            Some(c) => call_line(line@) == Some(c@),
            None => call_line(line@) is None,
        },
{
    let (a, b) = match line_content(line) {
        Some(bounds) => bounds,
        None => {
            return None;
        },
    };
    let l = slice_subrange(line, a, b);
    assert(l@.skip(0) =~= l@);
    let (u0, u1) = match pop_token(l, 0) {
        Some(t) => t,
        None => {
            return None;
        },
    };
    let (c0, c1) = match pop_token(l, u1) {
        Some(t) => t,
        None => {
            return None;
        },
    };
    let uid: i32 = match parse_i32(slice_subrange(l, u0, u1)) {
        Some(n) => n,
        None => {
            return None;
        },
    };
    let call = from_chars(upper_chars(slice_subrange(l, c0, c1)).as_slice());
    if encode_entry(call.as_str()).is_none() {
        return None;
    }
    Some(CallEntry { uid, call })
}

/// The place of a user in a list of callsigns.
fn find_uid(calls: &Vec<CallEntry>, uid: i32) -> (r: Option<usize>)
    ensures
        match r {
            Some(i) => i < calls@.len() && calls_view(calls@)[i as int].uid == uid && has_uid(
                calls_view(calls@),
                uid,
            ) && forall|k: int| 0 <= k < i ==> (#[trigger] calls_view(calls@)[k]).uid != uid,
            None => !has_uid(calls_view(calls@), uid),
        },
{
    let mut i: usize = 0;
    while i < calls.len()
        invariant
            i <= calls@.len(),
            forall|k: int| 0 <= k < i ==> (#[trigger] calls_view(calls@)[k]).uid != uid,
        decreases calls@.len() - i,
    {
        assert(calls_view(calls@)[i as int] == calls@[i as int]@);
        if calls[i].uid == uid {
            return Some(i);
        }
        i += 1;
    }
    None
}

/// Reads a map from user ids to callsigns: `uid callsign` on each line. Lines
/// that are not well formed, and a second line for a user, are left out.
pub fn parse_calls(content: &str) -> (r: Vec<CallEntry>)
    ensures
        calls_view(r@) == calls_of(lines(content@)),
{
    let chars = to_chars(content);
    let ls = split_lines(chars.as_slice());
    let ghost all = lines(content@);
    let mut out: Vec<CallEntry> = Vec::new();
    let mut i: usize = 0;
    assert(calls_view(out@) =~= calls_of(all.take(0)));
    while i < ls.len()
        invariant
            i <= ls@.len(),
            char_lists_view(ls@) == all,
            calls_view(out@) == calls_of(all.take(i as int)),
        decreases ls@.len() - i,
    {
        assert(all.take(i + 1).drop_last() =~= all.take(i as int));
        assert(all[i as int] == ls@[i as int]@);
        let ghost before = out@;
        match parse_call_line(ls[i].as_slice()) {
            Some(c) => {
                if find_uid(&out, c.uid).is_none() {
                    out.push(c);
                    assert(calls_view(out@) =~= calls_view(before).push(c@));
                }
            },
            None => {},
        }
        i += 1;
    }
    assert(all.take(i as int) =~= all);
    out
}

/// Where the first hyphen stands, from position `i` on; the length where there is
/// none.
pub open spec fn hyphen(s: Seq<char>, i: int) -> int
    decreases s.len() - i,
{
    if i >= s.len() {
        s.len() as int
    } else if s[i] == '-' {
        i
    } else {
        hyphen(s, i + 1)
    }
}

/// A callsign in capitals, without an SSID of 0.
pub open spec fn normal_call(s: Seq<char>) -> Seq<char> {
    let u = upper_text(s);
    if hyphen(u, 0) + 2 == u.len() && u[u.len() - 1] == '0' {
        u.take(hyphen(u, 0))
    } else {
        u
    }
}

/// A callsign in capitals, without an SSID of 0.
fn normalise(s: &str) -> (r: Vec<char>)
    ensures
        r@ == normal_call(s@),
{
    let up = upper_chars(to_chars(s).as_slice());
    let mut i: usize = 0;
    while i < up.len() && up[i] != '-'
        invariant
            i <= up@.len(),
            hyphen(up@, 0) == hyphen(up@, i as int),
        decreases up@.len() - i,
    {
        i += 1;
    }
    if up.len() - i == 2 && up[i + 1] == '0' {
        let r = vstd::slice::slice_to_vec(slice_subrange(up.as_slice(), 0, i));
        assert(r@ =~= up@.take(i as int));
        return r;
    }
    up
}

/// Whether two callsigns are the same, whatever their case, and with no SSID
/// counting as SSID 0.
pub fn is_same_call(a: &str, b: &str) -> (r: bool)
    ensures
        r == (normal_call(a@) == normal_call(b@)),
{
    same_chars(normalise(a).as_slice(), normalise(b).as_slice())
}

/// A string argument of the C interface.
#[derive(Debug, Clone, Copy)]
pub enum CText<'a> {
    /// The null pointer.
    Null,
    /// Bytes that are no UTF-8 text.
    Undecodable,
    Text(&'a str),
}

/// The value of an optional text.
pub open spec fn name_view(s: Option<&str>) -> Option<Seq<char>> {
    match s {
        Some(t) => Some(t@),
        None => None,
    }
}

/// Whether a query names a port: its name up to case, or its callsign.
pub open spec fn names(p: PortModel, query: Seq<char>) -> bool {
    same_ignoring_case(p.name, query) || normal_call(p.call) == normal_call(query)
}

/// The place of the first port that a query names, from index `i` on.
pub open spec fn found(ports: Seq<PortModel>, query: Seq<char>, i: int) -> Option<int>
    decreases ports.len() - i,
{
    if i < 0 || i >= ports.len() {
        None
    } else if names(ports[i], query) {
        Some(i)
    } else {
        found(ports, query, i + 1)
    }
}

/// The place of the first port with an address, from index `i` on.
pub open spec fn found_call(ports: Seq<PortModel>, call: Seq<u8>, i: int) -> Option<int>
    decreases ports.len() - i,
{
    if i < 0 || i >= ports.len() {
        None
    } else if (entry_of(ports[i].call) matches Some(e) && comparison(call, e) == 0) {
        Some(i)
    } else {
        found_call(ports, call, i + 1)
    }
}

/// The place of the first port with a device, from index `i` on. A port's device
/// is its name.
pub open spec fn found_device(ports: Seq<PortModel>, device: Seq<char>, i: int) -> Option<int>
    decreases ports.len() - i,
{
    if i < 0 || i >= ports.len() {
        None
    } else if ports[i].name == device {
        Some(i)
    } else {
        found_device(ports, device, i + 1)
    }
}

/// The ports once a file has been read: those that were there, if any, else those
/// of the file.
pub open spec fn loaded(before: Seq<PortModel>, content: Option<&str>) -> Seq<PortModel> {
    if before.len() > 0 {
        before
    } else {
        match content {
            Some(t) => ports_of(lines(t@)),
            None => before,
        }
    }
}

/// The callsigns once a map has been read: those that were there, if any, else
/// those of the map.
pub open spec fn calls_loaded(before: Seq<CallModel>, content: Option<&str>) -> Seq<CallModel> {
    if before.len() > 0 {
        before
    } else {
        match content {
            Some(t) => calls_of(lines(t@)),
            None => before,
        }
    }
}

/// The active ports.
pub struct PortTable {
    ports: Vec<ParsedPort>,
}

impl View for PortTable {
    type V = Seq<PortModel>;

    closed spec fn view(&self) -> Seq<PortModel> {
        ports_view(self.ports@)
    }
}

impl PortTable {
    pub fn new() -> (r: PortTable)
        ensures
            r@ == Seq::<PortModel>::empty(),
    {
        let r = PortTable { ports: Vec::new() };
        assert(r@ =~= Seq::<PortModel>::empty());
        r
    }

    /// Loads the port file, unless ports are there already; `None` where it could
    /// not be read. Returns the number of active ports.
    pub fn ax25_config_load_ports(&mut self, content: Option<&str>) -> (r: i32)
        ensures
            final(self)@ == loaded(old(self)@, content),
            r == final(self)@.len() as i32,
    {
        if self.ports.len() == 0 {
            match content {
                Some(t) => {
                    self.ports = parse_axports(t);
                },
                None => {},
            }
        }
        self.ports.len() as i32
    }

    /// The number of active ports.
    pub fn len(&self) -> (r: usize)
        ensures
            r == self@.len(),
    {
        self.ports.len()
    }

    /// The place of the first port that a query names.
    fn find_index(&self, query: &str) -> (r: Option<usize>)
        ensures
            match r {
                Some(i) => i < self@.len() && found(self@, query@, 0) == Some(i as int),
                None => found(self@, query@, 0) is None,
            },
    {
        let mut i: usize = 0;
        while i < self.ports.len()
            invariant
                i <= self@.len(),
                self@.len() == self.ports@.len(),
                found(self@, query@, 0) == found(self@, query@, i as int),
            decreases self@.len() - i,
        {
            assert(self@[i as int] == self.ports@[i as int]@);
            if same_text_ignoring_case(self.ports[i].name.as_str(), query) || is_same_call(
                self.ports[i].call.as_str(),
                query,
            ) {
                return Some(i);
            }
            i += 1;
        }
        None
    }

    /// The place of the port that an argument names.
    fn lookup(&self, name: CText) -> (r: Option<usize>)
        ensures
            match r {
                Some(i) => i < self@.len() && port_named(self@, name) == Some(i as int),
                None => port_named(self@, name) is None,
            },
    {
        match name {
            CText::Text(q) => self.find_index(q),
            _ => None,
        }
    }

    /// The name of the port behind the one that is named; of the first where the
    /// argument is null.
    pub fn ax25_config_get_next(&self, name: CText) -> (r: Option<&str>)
        ensures
            name_view(r) == next_name(self@, name),
    {
        if self.ports.len() == 0 {
            return None;
        }
        match name {
            CText::Null => {
                assert(self@[0] == self.ports@[0]@);
                Some(self.ports[0].name.as_str())
            },
            CText::Undecodable => None,
            CText::Text(q) => match self.find_index(q) {
                Some(i) => {
                    if i < self.ports.len() - 1 {
                        assert(self@[i + 1] == self.ports@[i + 1]@);
                        Some(self.ports[i + 1].name.as_str())
                    } else {
                        None
                    }
                },
                None => None,
            },
        }
    }

    /// The name of the port with a device.
    pub fn ax25_config_get_name(&self, device: CText) -> (r: Option<&str>)
        ensures
            name_view(r) == (match device {
                CText::Text(d) => match found_device(self@, d@, 0) {
                    Some(i) => Some(self@[i].name),
                    None => None,
                },
                _ => None,
            }),
    {
        let d = match device {
            CText::Text(d) => d,
            _ => {
                return None;
            },
        };
        let mut i: usize = 0;
        while i < self.ports.len()
            invariant
                i <= self@.len(),
                self@.len() == self.ports@.len(),
                device matches CText::Text(x) && x@ == d@,
                found_device(self@, d@, 0) == found_device(self@, d@, i as int),
            decreases self@.len() - i,
        {
            assert(self@[i as int] == self.ports@[i as int]@);
            if same_text(self.ports[i].name.as_str(), d) {
                return Some(self.ports[i].name.as_str());
            }
            i += 1;
        }
        None
    }

    /// The callsign of a port.
    pub fn ax25_config_get_addr(&self, name: CText) -> (r: Option<&str>)
        ensures
            name_view(r) == (match port_named(self@, name) {
                Some(i) => Some(self@[i].call),
                None => None,
            }),
    {
        match self.lookup(name) {
            Some(i) => {
                assert(self@[i as int] == self.ports@[i as int]@);
                Some(self.ports[i].call.as_str())
            },
            None => None,
        }
    }

    /// The device of a port, which is its name.
    pub fn ax25_config_get_dev(&self, name: CText) -> (r: Option<&str>)
        ensures
            name_view(r) == (match port_named(self@, name) {
                Some(i) => Some(self@[i].name),
                None => None,
            }),
    {
        match self.lookup(name) {
            Some(i) => {
                assert(self@[i as int] == self.ports@[i as int]@);
                Some(self.ports[i].name.as_str())
            },
            None => None,
        }
    }

    /// The name of the port with a callsign; "*", for all ports, where it is the
    /// address that stands for none.
    pub fn ax25_config_get_port(&self, callsign: Option<&Ax25Address>) -> (r: Option<&str>)
        ensures
            name_view(r) == (match callsign {
                Some(a) => if comparison(
                    a.ax25_call@,
                    seq![0x40u8, 0x40, 0x40, 0x40, 0x40, 0x40, 0],
                ) == 0 {
                    Some("*"@)
                } else {
                    match found_call(self@, a.ax25_call@, 0) {
                        Some(i) => Some(self@[i].name),
                        None => None,
                    }
                },
                None => None,
            }),
    {
        let a = match callsign {
            Some(a) => a,
            None => {
                return None;
            },
        };
        if same_address(&a.ax25_call, &null_ax25_address().ax25_call) {
            return Some("*");
        }
        let mut i: usize = 0;
        while i < self.ports.len()
            invariant
                i <= self@.len(),
                self@.len() == self.ports@.len(),
                callsign == Some(a),
                comparison(a.ax25_call@, seq![0x40u8, 0x40, 0x40, 0x40, 0x40, 0x40, 0]) != 0,
                found_call(self@, a.ax25_call@, 0) == found_call(self@, a.ax25_call@, i as int),
            decreases self@.len() - i,
        {
            assert(self@[i as int] == self.ports@[i as int]@);
            match encode_entry(self.ports[i].call.as_str()) {
                Some(e) => {
                    if same_address(&a.ax25_call, &e) {
                        return Some(self.ports[i].name.as_str());
                    }
                },
                None => {},
            }
            i += 1;
        }
        None
    }

    /// The window of a port; 0 where there is none of that name.
    pub fn ax25_config_get_window(&self, name: CText) -> (r: i32)
        ensures
            r == (match port_named(self@, name) {
                Some(i) => self@[i].window,
                None => 0,
            }),
    {
        match self.lookup(name) {
            Some(i) => {
                assert(self@[i as int] == self.ports@[i as int]@);
                self.ports[i].window
            },
            None => 0,
        }
    }

    /// The packet length of a port; 0 where there is none of that name.
    pub fn ax25_config_get_paclen(&self, name: CText) -> (r: i32)
        ensures
            r == (match port_named(self@, name) {
                Some(i) => self@[i].paclen,
                None => 0,
            }),
    {
        match self.lookup(name) {
            Some(i) => {
                assert(self@[i as int] == self.ports@[i as int]@);
                self.ports[i].paclen
            },
            None => 0,
        }
    }

    /// The speed of a port; 0 where there is none of that name.
    pub fn ax25_config_get_baud(&self, name: CText) -> (r: i32)
        ensures
            r == (match port_named(self@, name) {
                Some(i) => self@[i].baud,
                None => 0,
            }),
    {
        match self.lookup(name) {
            Some(i) => {
                assert(self@[i as int] == self.ports@[i as int]@);
                self.ports[i].baud
            },
            None => 0,
        }
    }

    /// The description of a port.
    pub fn ax25_config_get_desc(&self, name: CText) -> (r: Option<&str>)
        ensures
            name_view(r) == (match port_named(self@, name) {
                Some(i) => Some(self@[i].description),
                None => None,
            }),
    {
        match self.lookup(name) {
            Some(i) => {
                assert(self@[i as int] == self.ports@[i as int]@);
                Some(self.ports[i].description.as_str())
            },
            None => None,
        }
    }

    /// The callsign of the first port.
    fn first_call(&self) -> (r: Option<&str>)
        ensures
            name_view(r) == (if self@.len() > 0 {
                Some(self@[0].call)
            } else {
                None
            }),
    {
        if self.ports.len() == 0 {
            return None;
        }
        assert(self@[0] == self.ports@[0]@);
        Some(self.ports[0].call.as_str())
    }
}

/// The place of the port that an argument names.
pub open spec fn port_named(ports: Seq<PortModel>, name: CText) -> Option<int> {
    match name {
        CText::Text(q) => found(ports, q@, 0),
        _ => None,
    }
}

/// The name of the port behind the one that is named; of the first where the
/// argument is null.
pub open spec fn next_name(ports: Seq<PortModel>, name: CText) -> Option<Seq<char>> {
    match name {
        CText::Null => if ports.len() > 0 {
            Some(ports[0].name)
        } else {
            None
        },
        CText::Undecodable => None,
        CText::Text(q) => name_behind(ports, q@),
    }
}

/// The name of the port behind the one that a query names.
pub open spec fn name_behind(ports: Seq<PortModel>, query: Seq<char>) -> Option<Seq<char>> {
    match found(ports, query, 0) {
        Some(i) => if i + 1 < ports.len() {
            Some(ports[i + 1].name)
        } else {
            None
        },
        None => None,
    }
}

/// The name at step `n` of a walk over the ports: the first at the start, then
/// always the one behind the last that was given; `None` once the walk is over.
pub open spec fn walked(ports: Seq<PortModel>, n: nat) -> Option<Seq<char>>
    decreases n,
{
    if n == 0 {
        next_name(ports, CText::Null)
    } else {
        match walked(ports, (n - 1) as nat) {
            Some(q) => name_behind(ports, q),
            None => None,
        }
    }
}

/// The callsign of a user in a list.
pub open spec fn call_of_uid(calls: Seq<CallModel>, uid: i32) -> Option<Seq<char>>
    decreases calls.len(),
{
    if calls.len() == 0 {
        None
    } else if calls[0].uid == uid {
        Some(calls[0].call)
    } else {
        call_of_uid(calls.drop_first(), uid)
    }
}

proof fn lemma_call_of_uid(calls: Seq<CallModel>, uid: i32, n: int)
    requires
        0 <= n <= calls.len(),
        forall|k: int| 0 <= k < n ==> (#[trigger] calls[k]).uid != uid,
        n < calls.len() ==> calls[n].uid == uid,
    ensures
        call_of_uid(calls, uid) == (if n < calls.len() {
            Some(calls[n].call)
        } else {
            None
        }),
    decreases n,
{
    if n > 0 {
        assert forall|k: int| 0 <= k < n - 1 implies (#[trigger] calls.drop_first()[k]).uid
            != uid by {
            assert(calls[k + 1].uid != uid);
        }
        assert(calls[0].uid != uid);
        lemma_call_of_uid(calls.drop_first(), uid, n - 1);
    }
}

/// The callsigns of the users.
pub struct CallTable {
    calls: Vec<CallEntry>,
}

impl View for CallTable {
    type V = Seq<CallModel>;

    closed spec fn view(&self) -> Seq<CallModel> {
        calls_view(self.calls@)
    }
}

impl CallTable {
    pub fn new() -> (r: CallTable)
        ensures
            r@ == Seq::<CallModel>::empty(),
    {
        let r = CallTable { calls: Vec::new() };
        assert(r@ =~= Seq::<CallModel>::empty());
        r
    }

    /// Loads the map, unless callsigns are there already; `None` where it could
    /// not be read.
    pub fn load_calls(&mut self, content: Option<&str>)
        ensures
            final(self)@ == calls_loaded(old(self)@, content),
    {
        if self.calls.len() == 0 {
            match content {
                Some(t) => {
                    self.calls = parse_calls(t);
                },
                None => {},
            }
        }
    }

    /// The callsign of a user.
    fn call_of(&self, uid: i32) -> (r: Option<&str>)
        ensures
            name_view(r) == call_of_uid(self@, uid),
    {
        match find_uid(&self.calls, uid) {
            Some(i) => {
                proof {
                    lemma_call_of_uid(self@, uid, i as int);
                    assert(self@[i as int] == self.calls@[i as int]@);
                }
                Some(self.calls[i].call.as_str())
            },
            None => {
                proof {
                    lemma_call_of_uid(self@, uid, self@.len() as int);
                }
                None
            },
        }
    }
}

/// An override is set, and not empty.
pub open spec fn is_override(override_call: Option<&str>) -> bool {
    override_call is Some && override_call->Some_0@.len() > 0
}

/// The callsign for a user: the override where one is set and not empty, else the
/// user's entry in the map, else the callsign of the first port.
pub open spec fn resolved_call(
    override_call: Option<&str>,
    calls: Seq<CallModel>,
    ports: Seq<PortModel>,
    uid: i32,
) -> Option<Seq<char>> {
    if is_override(override_call) {
        Some(override_call->Some_0@)
    } else if call_of_uid(calls, uid) is Some {
        call_of_uid(calls, uid)
    } else if ports.len() > 0 {
        Some(ports[0].call)
    } else {
        None
    }
}

/// The callsign for a user.
pub fn get_call<'a>(
    override_call: Option<&'a str>,
    calls: &'a CallTable,
    ports: &'a PortTable,
    uid: i32,
) -> (r: Option<&'a str>)
    ensures
        name_view(r) == resolved_call(override_call, calls@, ports@, uid),
{
    match override_call {
        Some(c) => {
            if !same_text(c, "") {
                proof {
                    reveal_strlit("");
                    assert(c@.len() == 0 ==> c@ =~= ""@);
                }
                return Some(c);
            }
            proof {
                reveal_strlit("");
            }
        },
        None => {},
    }
    match calls.call_of(uid) {
        Some(c) => Some(c),
        None => ports.first_call(),
    }
}

/// The callsign for a user, with what the tables do not hold yet taken from the
/// contents of their files, `None` where one could not be read. The map is loaded
/// where no override is set, the ports only where the map does not name the user.
pub fn get_call_loading(
    override_call: Option<&str>,
    calls: &mut CallTable,
    calls_content: Option<&str>,
    ports: &mut PortTable,
    ports_content: Option<&str>,
    uid: i32,
) -> (r: Option<String>)
    ensures
        string_view(r) == resolved_call(
            override_call,
            calls_loaded(old(calls)@, calls_content),
            loaded(old(ports)@, ports_content),
            uid,
        ),
        final(calls)@ == (if is_override(override_call) {
            old(calls)@
        } else {
            calls_loaded(old(calls)@, calls_content)
        }),
        final(ports)@ == (if is_override(override_call) || call_of_uid(
            calls_loaded(old(calls)@, calls_content),
            uid,
        ) is Some {
            old(ports)@
        } else {
            loaded(old(ports)@, ports_content)
        }),
{
    match override_call {
        Some(c) => {
            proof {
                reveal_strlit("");
                assert(c@.len() == 0 ==> c@ =~= ""@);
            }
            if !same_text(c, "") {
                return Some(c.to_owned());
            }
        },
        None => {},
    }
    calls.load_calls(calls_content);
    match calls.call_of(uid) {
        Some(c) => {
            return Some(c.to_owned());
        },
        None => {},
    }
    let _ = ports.ax25_config_load_ports(ports_content);
    match get_call(override_call, calls, ports, uid) {
        Some(c) => Some(c.to_owned()),
        None => None,
    }
}

/// No callsign is given only where there is none at all: no override, no entry of
/// the user, and no port, neither one that was loaded before nor one in the file.
/// Where only the port file has any, the first port's is given, whether or not the
/// ports were loaded before.
pub proof fn law_no_callsign_only_where_there_is_none(
    override_call: Option<&str>,
    calls: Seq<CallModel>,
    before: Seq<PortModel>,
    content: &str,
    uid: i32,
)
    ensures
        resolved_call(override_call, calls, loaded(before, Some(content)), uid) is None <==> (
        !is_override(override_call) && call_of_uid(calls, uid) is None && before.len() == 0
            && ports_of(lines(content@)).len() == 0),
        !is_override(override_call) && call_of_uid(calls, uid) is None && before.len() == 0
            && ports_of(lines(content@)).len() > 0 ==> resolved_call(
            override_call,
            calls,
            loaded(before, Some(content)),
            uid,
        ) == Some(ports_of(lines(content@))[0].call),
{
}

/// No two ports share a name or a callsign, and every port is well formed: it
/// could be told apart, addressed and used.
pub proof fn law_ports_are_distinct(ls: Seq<Seq<char>>)
    ensures
        forall|i: int, j: int|
            0 <= i < j < ports_of(ls).len() ==> !clash(
                #[trigger] ports_of(ls)[i],
                #[trigger] ports_of(ls)[j],
            ),
        forall|i: int|
            0 <= i < ports_of(ls).len() ==> {
                let p = #[trigger] ports_of(ls)[i];
                p.baud >= 0 && p.paclen > 0 && p.window > 0 && p.description.len() > 0
                    && entry_of(p.call) is Some
            },
    decreases ls.len(),
{
    if ls.len() > 0 {
        law_ports_are_distinct(ls.drop_last());
    }
}

/// Every well-formed line is an active port, or clashes with an earlier one that
/// is: no line is dropped for any other reason.
pub proof fn law_every_line_is_a_port(ls: Seq<Seq<char>>, i: int)
    requires
        0 <= i < ls.len(),
        port_line(ls[i]) is Some,
    ensures
        ports_of(ls).contains(port_line(ls[i])->Some_0) || clashes(
            ports_of(ls.take(i)),
            port_line(ls[i])->Some_0,
        ),
    decreases ls.len(),
{
    let p = port_line(ls[i])->Some_0;
    let before = ports_of(ls.drop_last());
    if i == ls.len() - 1 {
        assert(ls.take(i) =~= ls.drop_last());
        if !clashes(before, p) {
            assert(ports_of(ls) == before.push(p));
            assert(before.push(p)[before.len() as int] == p);
        }
    } else {
        law_every_line_is_a_port(ls.drop_last(), i);
        assert(ls.drop_last().take(i) =~= ls.take(i));
        if before.contains(p) {
            let k = choose|k: int| 0 <= k < before.len() && before[k] == p;
            assert(ports_of(ls)[k] == p);
        }
    }
}

/// Every active port is described by a line.
pub proof fn law_every_port_has_a_line(ls: Seq<Seq<char>>, k: int)
    requires
        0 <= k < ports_of(ls).len(),
    ensures
        exists|i: int| 0 <= i < ls.len() && port_line(#[trigger] ls[i]) == Some(ports_of(ls)[k]),
    decreases ls.len(),
{
    if ls.len() > 0 {
        let before = ports_of(ls.drop_last());
        if k < before.len() {
            law_every_port_has_a_line(ls.drop_last(), k);
            let i = choose|i: int|
                0 <= i < ls.drop_last().len() && port_line(#[trigger] ls.drop_last()[i]) == Some(
                    before[k],
                );
            assert(port_line(ls[i]) == Some(ports_of(ls)[k]));
        } else {
            assert(port_line(ls[ls.len() - 1]) == Some(ports_of(ls)[k]));
        }
    }
}

/// Later lines never change earlier ports: they stay what they are, at their
/// places.
pub proof fn law_later_lines_keep_earlier_ports(ls: Seq<Seq<char>>, more: Seq<Seq<char>>)
    ensures
        ports_of(ls).len() <= ports_of(ls + more).len(),
        ports_of(ls + more).take(ports_of(ls).len() as int) == ports_of(ls),
    decreases more.len(),
{
    if more.len() == 0 {
        assert(ls + more =~= ls);
        assert(ports_of(ls).take(ports_of(ls).len() as int) =~= ports_of(ls));
    } else {
        law_later_lines_keep_earlier_ports(ls, more.drop_last());
        assert((ls + more).drop_last() =~= ls + more.drop_last());
        assert(ports_of(ls + more).take(ports_of(ls).len() as int) =~= ports_of(
            ls + more.drop_last(),
        ).take(ports_of(ls).len() as int));
    }
}

/// A walk over the ports of a file visits each of them once, in order, and then
/// ends. A name that is also the callsign of an earlier port would lead back to
/// that one.
pub proof fn law_a_walk_visits_each_port_once(ls: Seq<Seq<char>>, n: nat)
    requires
        forall|i: int, j: int|
            0 <= i < j < ports_of(ls).len() ==> normal_call((#[trigger] ports_of(ls)[i]).call)
                != normal_call((#[trigger] ports_of(ls)[j]).name),
    ensures
        walked(ports_of(ls), n) == (if n < ports_of(ls).len() {
            Some(ports_of(ls)[n as int].name)
        } else {
            None
        }),
    decreases n,
{
    let ports = ports_of(ls);
    if n > 0 {
        law_a_walk_visits_each_port_once(ls, (n - 1) as nat);
        if n <= ports.len() {
            law_ports_are_distinct(ls);
            let k = n - 1;
            law_a_port_is_found_by_name(ports, k, 0);
            let i = found(ports, ports[k].name, 0)->Some_0;
            lemma_found_is_named(ports, ports[k].name, 0);
            if i < k {
                assert(!clash(ports[i], ports[k]));
            }
        }
    }
}

/// The port that is found is one that the query names.
proof fn lemma_found_is_named(ports: Seq<PortModel>, query: Seq<char>, i: int)
    requires
        found(ports, query, i) is Some,
    ensures
        0 <= found(ports, query, i)->Some_0 < ports.len(),
        names(ports[found(ports, query, i)->Some_0], query),
    decreases ports.len() - i,
{
    if !names(ports[i], query) {
        lemma_found_is_named(ports, query, i + 1);
    }
}

/// Each user has one callsign at most, and it can be encoded.
pub proof fn law_users_are_distinct(ls: Seq<Seq<char>>)
    ensures
        forall|i: int, j: int|
            0 <= i < j < calls_of(ls).len() ==> (#[trigger] calls_of(ls)[i]).uid != (
            #[trigger] calls_of(ls)[j]).uid,
        forall|i: int|
            0 <= i < calls_of(ls).len() ==> entry_of((#[trigger] calls_of(ls)[i]).call) is Some,
    decreases ls.len(),
{
    if ls.len() > 0 {
        law_users_are_distinct(ls.drop_last());
    }
}

/// Loading is idempotent: once ports are there, a second load changes nothing.
pub proof fn law_loading_is_idempotent(before: Seq<PortModel>, a: Option<&str>, b: Option<&str>)
    requires
        loaded(before, a).len() > 0,
    ensures
        loaded(loaded(before, a), b) == loaded(before, a),
{
}

/// A port is found by its own name, at its place or, where an earlier port
/// answers to that name, before it.
pub proof fn law_a_port_is_found_by_name(ports: Seq<PortModel>, k: int, i: int)
    requires
        0 <= i <= k < ports.len(),
    ensures
        found(ports, ports[k].name, i) is Some,
        i <= found(ports, ports[k].name, i)->Some_0 <= k,
    decreases k - i,
{
    if i < k && !names(ports[i], ports[k].name) {
        law_a_port_is_found_by_name(ports, k, i + 1);
    }
}

/// A callsign without an SSID is the same as with SSID 0.
pub proof fn law_ssid_zero_is_no_ssid(call: Seq<char>)
    requires
        hyphen(call, 0) == call.len(),
    ensures
        normal_call(call + seq!['-', '0']) == normal_call(call),
{
    let u = upper_text(call);
    let w = upper_text(call + seq!['-', '0']);
    lemma_no_hyphen(call, 0);
    assert(w =~= u + seq!['-', '0']);
    lemma_hyphen_at(w, u.len() as int, 0);
    lemma_hyphen_none(u, 0);
    assert(w.take(u.len() as int) =~= u);
}

proof fn lemma_no_hyphen(s: Seq<char>, i: int)
    requires
        0 <= i <= s.len(),
        hyphen(s, i) == s.len(),
    ensures
        forall|k: int| i <= k < s.len() ==> #[trigger] upper_text(s)[k] != '-',
    decreases s.len() - i,
{
    if i < s.len() {
        lemma_no_hyphen(s, i + 1);
        lemma_upper_keeps_hyphens(s[i]);
    }
}

proof fn lemma_upper_keeps_hyphens(c: char)
    ensures
        crate::text::upper(c) == '-' ==> c == '-',
{
}

proof fn lemma_hyphen_at(s: Seq<char>, k: int, i: int)
    requires
        0 <= i <= k < s.len(),
        s[k] == '-',
        forall|j: int| i <= j < k ==> #[trigger] s[j] != '-',
    ensures
        hyphen(s, i) == k,
    decreases k - i,
{
    if i < k {
        lemma_hyphen_at(s, k, i + 1);
    }
}

proof fn lemma_hyphen_none(s: Seq<char>, i: int)
    requires
        0 <= i <= s.len(),
        forall|j: int| i <= j < s.len() ==> #[trigger] s[j] != '-',
    ensures
        hyphen(s, i) == s.len(),
    decreases s.len() - i,
{
    if i < s.len() {
        lemma_hyphen_none(s, i + 1);
    }
}

} // verus!
