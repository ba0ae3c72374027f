//! What the helper library promises, told from outside: what a line of the port file
//! says, which callsigns there are, and how they look on the air.

use vstd::prelude::*;
use vstd::utf8::{encode_utf8, is_ascii_chars, is_ascii_chars_encode_utf8};

use super::addr::{
    before_nul, call_letters, callsigns, comparison, decode_call, encode_call, entry_of, entry_view,
    filled, is_valid, is_via, lemma_call_end_bounds, lemma_call_end_is, lemma_digit_run, lower_byte,
    number_value, path_of, placed, scan_int, shifted, skip_blanks, skip_vias, upper_byte,
    FullSockaddrAx25, SaxModel,
};
use super::config::{
    call_line, call_of_uid, calls_loaded, calls_of, calls_view, content_of, first_token, found, found_call,
    found_device, hyphen, law_every_port_has_a_line, loaded, name_behind, name_view, next_name, normal_call,
    port_call, port_line, port_named, ports_of, ports_view, resolved_call, six_fields, strip_cr, token_len,
    CText, CallEntry, CallModel, ParsedPort, PortModel,
};
use super::rose::{is_rose, packed, rose_of, rose_text};
use crate::text::{
    all_digits, char_lists_view, decimal, digits_value, is_digit, is_space, lemma_ascii_bytes, line_len, lines,
    parsed_i32, same_ignoring_case, texts_view, trim_end, trim_start, upper, upper_text, word_len, words,
};

verus! {

/// Two characters are the same letter, or the same character.
pub open spec fn same_letter(x: char, y: char) -> bool {
    ||| x == y
    ||| 'a' <= x <= 'z' && y as u32 + 32 == x as u32
    ||| 'a' <= y <= 'z' && x as u32 + 32 == y as u32
}

proof fn lemma_same_letter(x: char, y: char)
    ensures
        upper(x) == upper(y) <==> same_letter(x, y),
{
}

/// Texts that are the same up to case are so character by character: equal, or the
/// same ASCII letter.
pub proof fn law_same_up_to_case(a: Seq<char>, b: Seq<char>)
    ensures
        same_ignoring_case(a, b) <==> a.len() == b.len() && forall|i: int|
            0 <= i < a.len() ==> same_letter(#[trigger] a[i], b[i]),
{
    if same_ignoring_case(a, b) {
        assert(upper_text(a).len() == upper_text(b).len());
        assert forall|i: int| 0 <= i < a.len() implies same_letter(#[trigger] a[i], b[i]) by {
            assert(upper_text(a)[i] == upper_text(b)[i]);
            lemma_same_letter(a[i], b[i]);
        }
    }
    if a.len() == b.len() && forall|i: int| 0 <= i < a.len() ==> same_letter(#[trigger] a[i], b[i]) {
        assert forall|i: int| 0 <= i < a.len() implies upper_text(a)[i] == upper_text(b)[i] by {
            assert(same_letter(a[i], b[i]));
            lemma_same_letter(a[i], b[i]);
        }
        assert(upper_text(a) =~= upper_text(b));
    }
}

/// A text in capitals has no small letter, is as long as it was, and is the same up
/// to case.
pub proof fn law_capitals(s: Seq<char>)
    ensures
        upper_text(s).len() == s.len(),
        same_ignoring_case(upper_text(s), s),
        forall|i: int| 0 <= i < s.len() ==> !('a' <= (#[trigger] upper_text(s)[i]) <= 'z'),
{
    assert forall|i: int| 0 <= i < s.len() implies !('a' <= (#[trigger] upper_text(s)[i]) <= 'z')
        && upper(upper_text(s)[i]) == upper_text(s)[i] by {
        lemma_capital(s[i]);
    }
    assert(upper_text(upper_text(s)) =~= upper_text(s));
}

proof fn lemma_capital(c: char)
    ensures
        !('a' <= upper(c) <= 'z'),
        upper(upper(c)) == upper(c),
{
}

/// White space is what Unicode counts as such: the characters 9 to 13, the space, and
/// those with the numbers 133, 160, 5760, 8192 to 8202, 8232, 8233, 8239, 8287 and 12288.
pub proof fn law_white_space(c: char)
    ensures
        is_space(c) <==> 9 <= c as u32 <= 13 || c == ' ' || c as u32 == 133 || c as u32 == 160
            || c as u32 == 5760 || 8192 <= c as u32 <= 8202 || c as u32 == 8232 || c as u32 == 8233
            || c as u32 == 8239 || c as u32 == 8287 || c as u32 == 12288,
{
}

/// Trimming takes away white space at an end, all of it, and nothing else.
pub proof fn law_trimming(s: Seq<char>)
    ensures
        ({
            let n = s.len() - trim_start(s).len();
            &&& 0 <= n
            &&& trim_start(s) == s.skip(n)
            &&& forall|i: int| 0 <= i < n ==> is_space(#[trigger] s[i])
            &&& n < s.len() ==> !is_space(s[n])
        }),
        ({
            let n = trim_end(s).len();
            &&& n <= s.len()
            &&& trim_end(s) == s.take(n as int)
            &&& forall|i: int| n <= i < s.len() ==> is_space(#[trigger] s[i])
            &&& n > 0 ==> !is_space(s[n - 1])
        }),
    decreases s.len(),
{
    if s.len() > 0 && is_space(s[0]) {
        let t = s.drop_first();
        law_trimming(t);
        let n = t.len() - trim_start(t).len();
        assert(t.skip(n) =~= s.skip(n + 1));
        assert forall|i: int| 0 <= i < n + 1 implies is_space(#[trigger] s[i]) by {
            if i > 0 {
                assert(t[i - 1] == s[i]);
            }
        }
        assert(n < t.len() ==> t[n] == s[n + 1]);
    } else {
        assert(s.skip(0) =~= s);
    }
    if s.len() > 0 && is_space(s.last()) {
        let t = s.drop_last();
        law_trimming(t);
        let n = trim_end(t).len();
        assert(t.take(n as int) =~= s.take(n as int));
        assert forall|i: int| n <= i < s.len() implies is_space(#[trigger] s[i]) by {
            if i < t.len() {
                assert(t[i] == s[i]);
            }
        }
        assert(n > 0 ==> t[n - 1] == s[n - 1]);
    } else {
        assert(s.take(s.len() as int) =~= s);
    }
}

proof fn lemma_line_len_is(a: Seq<char>, rest: Seq<char>)
    requires
        forall|i: int| 0 <= i < a.len() ==> #[trigger] a[i] != '\n',
        rest.len() > 0 ==> rest[0] == '\n',
    ensures
        line_len(a + rest) == a.len(),
    decreases a.len(),
{
    let s = a + rest;
    if a.len() > 0 {
        assert(a[0] != '\n');
        assert forall|i: int| 0 <= i < a.drop_first().len() implies #[trigger] a.drop_first()[i]
            != '\n' by {
            assert(a[i + 1] != '\n');
        }
        lemma_line_len_is(a.drop_first(), rest);
        assert(s.drop_first() =~= a.drop_first() + rest);
    } else {
        assert(s =~= rest);
    }
}

/// A text is cut into lines at its line feeds, and nowhere else; an end without one
/// is a line too.
pub proof fn law_lines(a: Seq<char>, rest: Seq<char>)
    requires
        forall|i: int| 0 <= i < a.len() ==> #[trigger] a[i] != '\n',
    ensures
        lines(Seq::empty()) == Seq::<Seq<char>>::empty(),
        a.len() > 0 ==> lines(a) == seq![a],
        lines(a + seq!['\n'] + rest) == seq![a] + lines(rest),
{
    let s = a + seq!['\n'] + rest;
    lemma_line_len_is(a, seq!['\n'] + rest);
    assert(s =~= a + (seq!['\n'] + rest));
    assert(s.take(a.len() as int) =~= a);
    assert(s.skip(a.len() as int + 1) =~= rest);
    lemma_line_len_is(a, Seq::empty());
    assert(a + Seq::<char>::empty() =~= a);
    assert(a.take(a.len() as int) =~= a);
    assert(lines(Seq::empty()) =~= Seq::<Seq<char>>::empty());
    if a.len() > 0 {
        assert(lines(a) =~= seq![a]);
    }
}

proof fn lemma_word_len_is(a: Seq<char>, rest: Seq<char>)
    requires
        forall|i: int| 0 <= i < a.len() ==> !is_space(#[trigger] a[i]),
        rest.len() > 0 ==> is_space(rest[0]),
    ensures
        word_len(a + rest) == a.len(),
    decreases a.len(),
{
    let s = a + rest;
    if a.len() > 0 {
        assert(!is_space(a[0]));
        assert forall|i: int| 0 <= i < a.drop_first().len() implies !is_space(
            #[trigger] a.drop_first()[i],
        ) by {
            assert(!is_space(a[i + 1]));
        }
        lemma_word_len_is(a.drop_first(), rest);
        assert(s.drop_first() =~= a.drop_first() + rest);
    } else {
        assert(s =~= rest);
    }
}

proof fn lemma_trim_front(blank: Seq<char>, s: Seq<char>)
    requires
        forall|i: int| 0 <= i < blank.len() ==> is_space(#[trigger] blank[i]),
    ensures
        trim_start(blank + s) == trim_start(s),
    decreases blank.len(),
{
    if blank.len() > 0 {
        assert(is_space(blank[0]));
        assert forall|i: int| 0 <= i < blank.drop_first().len() implies is_space(
            #[trigger] blank.drop_first()[i],
        ) by {
            assert(is_space(blank[i + 1]));
        }
        lemma_trim_front(blank.drop_first(), s);
        assert((blank + s).drop_first() =~= blank.drop_first() + s);
    } else {
        assert(blank + s =~= s);
    }
}

/// The words of a text are its runs without white space, in order.
pub proof fn law_words(blank: Seq<char>, word: Seq<char>, rest: Seq<char>)
    requires
        forall|i: int| 0 <= i < blank.len() ==> is_space(#[trigger] blank[i]),
        forall|i: int| 0 <= i < word.len() ==> !is_space(#[trigger] word[i]),
        word.len() > 0,
        rest.len() > 0 ==> is_space(rest[0]),
    ensures
        words(blank) == Seq::<Seq<char>>::empty(),
        words(blank + word + rest) == seq![word] + words(rest),
{
    lemma_trim_front(blank, Seq::empty());
    assert(blank + Seq::<char>::empty() =~= blank);
    assert(trim_start(blank).len() == 0);
    assert(words(blank) =~= Seq::<Seq<char>>::empty());
    let t = word + rest;
    assert(blank + word + rest =~= blank + t);
    lemma_trim_front(blank, t);
    assert(!is_space(word[0]));
    assert(t[0] == word[0]);
    lemma_word_len_is(word, rest);
    assert(t.take(word.len() as int) =~= word);
    assert(t.skip(word.len() as int) =~= rest);
}

/// A gap between fields: a space or a tab, and perhaps more white space.
pub open spec fn is_gap(s: Seq<char>) -> bool {
    &&& s.len() > 0
    &&& s[0] == ' ' || s[0] == '\t'
    &&& is_blank(s)
}

/// White space only, or nothing.
pub open spec fn is_blank(s: Seq<char>) -> bool {
    forall|i: int| 0 <= i < s.len() ==> is_space(#[trigger] s[i])
}

/// A field of a line: it does not start with white space, and has no space or tab in
/// it.
pub open spec fn is_field(s: Seq<char>) -> bool {
    &&& s.len() > 0
    &&& !is_space(s[0])
    &&& forall|i: int| 0 <= i < s.len() ==> #[trigger] s[i] != ' ' && s[i] != '\t'
}

proof fn lemma_token_len_is(a: Seq<char>, rest: Seq<char>)
    requires
        forall|i: int| 0 <= i < a.len() ==> #[trigger] a[i] != ' ' && a[i] != '\t',
        rest.len() > 0 ==> rest[0] == ' ' || rest[0] == '\t',
    ensures
        token_len(a + rest) == a.len(),
    decreases a.len(),
{
    let s = a + rest;
    if a.len() > 0 {
        assert(a[0] != ' ' && a[0] != '\t');
        assert forall|i: int| 0 <= i < a.drop_first().len() implies #[trigger] a.drop_first()[i]
            != ' ' && a.drop_first()[i] != '\t' by {
            assert(a[i + 1] != ' ' && a[i + 1] != '\t');
        }
        lemma_token_len_is(a.drop_first(), rest);
        assert(s.drop_first() =~= a.drop_first() + rest);
    } else {
        assert(s =~= rest);
    }
}

/// The first field of a text is what stands between the white space at its front and
/// the next space or tab; a blank text has none.
pub proof fn law_first_field(blank: Seq<char>, field: Seq<char>, rest: Seq<char>)
    requires
        is_blank(blank),
        is_field(field),
        rest.len() > 0 ==> rest[0] == ' ' || rest[0] == '\t',
    ensures
        first_token(blank + (field + rest)) == Some((field, rest)),
        first_token(blank) is None,
{
    let t = field + rest;
    lemma_trim_front(blank, t);
    assert(t[0] == field[0]);
    lemma_token_len_is(field, rest);
    assert(t.take(field.len() as int) =~= field);
    assert(t.skip(field.len() as int) =~= rest);
    lemma_trim_front(blank, Seq::empty());
    assert(blank + Seq::<char>::empty() =~= blank);
}

proof fn lemma_strip_behind(front: Seq<char>, s: Seq<char>)
    requires
        strip_cr(s).len() > 0,
    ensures
        strip_cr(front + s) == front + strip_cr(s),
    decreases s.len(),
{
    if s.len() > 0 && s.last() == '\r' {
        lemma_strip_behind(front, s.drop_last());
        assert((front + s).drop_last() =~= front + s.drop_last());
        assert((front + s).last() == '\r');
    } else {
        assert((front + s).last() == s.last());
    }
}

/// What is left of blank text behind something else, once carriage returns are gone.
proof fn lemma_strip_tail(s: Seq<char>, tail: Seq<char>) -> (t: Seq<char>)
    requires
        s.len() > 0,
        s.last() != '\r',
        is_blank(tail),
    ensures
        strip_cr(s + tail) == s + t,
        is_blank(t),
        tail.len() == 0 ==> t.len() == 0,
        tail.len() > 0 && t.len() > 0 ==> t[0] == tail[0],
    decreases tail.len(),
{
    if tail.len() > 0 && tail.last() == '\r' {
        assert((s + tail).drop_last() =~= s + tail.drop_last());
        assert((s + tail).last() == '\r');
        let t = lemma_strip_tail(s, tail.drop_last());
        if t.len() > 0 {
            assert(tail.drop_last().len() > 0);
            assert(tail.drop_last()[0] == tail[0]);
        }
        t
    } else {
        if tail.len() > 0 {
            assert((s + tail).last() == tail.last());
        } else {
            assert(s + tail =~= s);
        }
        tail
    }
}

proof fn lemma_trim_behind(s: Seq<char>, tail: Seq<char>)
    requires
        s.len() > 0,
        !is_space(s.last()),
        is_blank(tail),
    ensures
        trim_end(s + tail) == s,
    decreases tail.len(),
{
    if tail.len() > 0 {
        assert(is_space(tail[tail.len() - 1]));
        assert((s + tail).last() == tail.last());
        assert((s + tail).drop_last() =~= s + tail.drop_last());
        lemma_trim_behind(s, tail.drop_last());
    } else {
        assert(s + tail =~= s);
    }
}

/// What a line of the port file says: with its fields between gaps, and a
/// description behind them, it is a port with exactly these, where the three numbers
/// are numbers, the speed not negative, the other two positive, and the callsign can
/// be encoded; otherwise it is none. White space around all that is no part of it.
pub proof fn law_a_port_line(
    lead: Seq<char>,
    f: Seq<Seq<char>>,
    g: Seq<Seq<char>>,
    description: Seq<char>,
    tail: Seq<char>,
)
    requires
        f.len() == 5,
        g.len() == 5,
        forall|i: int| 0 <= i < 5 ==> is_field(#[trigger] f[i]),
        forall|i: int| 0 <= i < 5 ==> is_gap(#[trigger] g[i]),
        description.len() > 0,
        !is_space(description[0]),
        !is_space(description.last()),
        f[0][0] != '#',
        is_blank(lead),
        is_blank(tail),
    ensures
        ({
            let line = lead + (f[0] + (g[0] + (f[1] + (g[1] + (f[2] + (g[2] + (f[3] + (g[3] + (f[4]
                + (g[4] + (description + tail)))))))))));
            let numbers = parsed_i32(f[2]) is Some && parsed_i32(f[2])->Some_0 >= 0 && parsed_i32(
                f[3],
            ) is Some && parsed_i32(f[3])->Some_0 > 0 && parsed_i32(f[4]) is Some && parsed_i32(
                f[4],
            )->Some_0 > 0;
            if numbers && entry_of(port_call(f[1])) is Some {
                port_line(line) == Some(
                    PortModel {
                        name: f[0],
                        call: port_call(f[1]),
                        baud: parsed_i32(f[2])->Some_0,
                        paclen: parsed_i32(f[3])->Some_0,
                        window: parsed_i32(f[4])->Some_0,
                        description,
                    },
                )
            } else {
                port_line(line) is None
            }
        }),
{
    lemma_cr_is_space();
    let t = lemma_strip_tail(description, tail);
    let d = description + tail;
    lemma_strip_behind(g[4], d);
    lemma_strip_behind(f[4], g[4] + d);
    lemma_strip_behind(g[3], f[4] + (g[4] + d));
    let e = g[3] + (f[4] + (g[4] + d));
    lemma_strip_behind(f[3], e);
    lemma_strip_behind(g[2], f[3] + e);
    lemma_strip_behind(f[2], g[2] + (f[3] + e));
    let h = f[2] + (g[2] + (f[3] + e));
    lemma_strip_behind(g[1], h);
    lemma_strip_behind(f[1], g[1] + h);
    lemma_strip_behind(g[0], f[1] + (g[1] + h));
    lemma_strip_behind(f[0], g[0] + (f[1] + (g[1] + h)));
    let body = f[0] + (g[0] + (f[1] + (g[1] + h)));
    lemma_strip_behind(lead, body);
    let s5 = g[4] + (description + t);
    let s4 = g[3] + (f[4] + s5);
    let s3 = g[2] + (f[3] + s4);
    let s2 = g[1] + (f[2] + s3);
    let s1 = g[0] + (f[1] + s2);
    let said = f[0] + s1;
    assert(strip_cr(lead + body) == lead + said);
    assert(is_field(f[0]) && is_field(f[1]) && is_field(f[2]) && is_field(f[3]) && is_field(f[4]));
    assert(is_gap(g[0]) && is_gap(g[1]) && is_gap(g[2]) && is_gap(g[3]) && is_gap(g[4]));
    lemma_trim_front(lead, said);
    assert(said[0] == f[0][0]);
    assert(trim_start(said) == said);
    assert(content_of(lead + body) == Some(said));
    let none = Seq::<char>::empty();
    law_first_field(none, f[0], s1);
    assert(none + (f[0] + s1) =~= said);
    law_first_field(g[0], f[1], s2);
    law_first_field(g[1], f[2], s3);
    law_first_field(g[2], f[3], s4);
    law_first_field(g[3], f[4], s5);
    lemma_trim_front(g[4], description + t);
    assert((description + t)[0] == description[0]);
    lemma_trim_behind(description, t);
    assert(six_fields(said) == Some(seq![f[0], f[1], f[2], f[3], f[4], description]));
}

/// Some fields with gaps between them, and white space behind.
pub open spec fn fields_text(f: Seq<Seq<char>>, g: Seq<Seq<char>>, tail: Seq<char>, i: int) -> Seq<
    char,
>
    decreases f.len() - i,
{
    if i + 1 >= f.len() {
        f[i] + tail
    } else {
        f[i] + (g[i] + fields_text(f, g, tail, i + 1))
    }
}

proof fn lemma_fields_text(
    f: Seq<Seq<char>>,
    g: Seq<Seq<char>>,
    tail: Seq<char>,
    i: int,
    front: Seq<char>,
)
    requires
        0 <= i < f.len(),
        g.len() == f.len(),
        forall|k: int| 0 <= k < f.len() ==> is_field(#[trigger] f[k]),
        forall|k: int| 0 <= k < f.len() ==> is_gap(#[trigger] g[k]),
        is_blank(tail),
        tail.len() > 0 ==> tail[0] == ' ' || tail[0] == '\t',
        is_blank(front),
    ensures
        i + 1 < f.len() ==> first_token(front + fields_text(f, g, tail, i)) == Some(
            (f[i], g[i] + fields_text(f, g, tail, i + 1)),
        ),
        i + 1 == f.len() ==> first_token(front + fields_text(f, g, tail, i)) == Some((f[i], tail)),
        fields_text(f, g, tail, i).len() > 0,
        fields_text(f, g, tail, i)[0] == f[i][0],
        is_blank(g[i]),
{
    assert(is_field(f[i]) && is_gap(g[i]));
    if i + 1 < f.len() {
        law_first_field(front, f[i], g[i] + fields_text(f, g, tail, i + 1));
    } else {
        law_first_field(front, f[i], tail);
    }
}

/// Stripping leaves fields as they are, where the last does not end in a carriage
/// return.
proof fn lemma_fields_stripped(
    f: Seq<Seq<char>>,
    g: Seq<Seq<char>>,
    tail: Seq<char>,
    i: int,
) -> (t: Seq<char>)
    requires
        0 <= i < f.len(),
        g.len() == f.len(),
        forall|k: int| 0 <= k < f.len() ==> is_field(#[trigger] f[k]),
        is_blank(tail),
        f.last().last() != '\r',
    ensures
        strip_cr(fields_text(f, g, tail, i)) == fields_text(f, g, t, i),
        fields_text(f, g, t, i).len() > 0,
        is_blank(t),
        tail.len() == 0 ==> t.len() == 0,
        tail.len() > 0 && t.len() > 0 ==> t[0] == tail[0],
    decreases f.len() - i,
{
    assert(is_field(f[i]));
    if i + 1 >= f.len() {
        lemma_strip_tail(f[i], tail)
    } else {
        let t = lemma_fields_stripped(f, g, tail, i + 1);
        lemma_strip_behind(g[i], fields_text(f, g, tail, i + 1));
        lemma_strip_behind(f[i], g[i] + fields_text(f, g, tail, i + 1));
        t
    }
}

/// A line with fewer fields says nothing: up to five, and no description, are no
/// port, and one alone is no user's callsign.
pub proof fn law_lines_need_all_their_fields(
    f: Seq<Seq<char>>,
    g: Seq<Seq<char>>,
    tail: Seq<char>,
)
    requires
        1 <= f.len() <= 5,
        g.len() == f.len(),
        forall|k: int| 0 <= k < f.len() ==> is_field(#[trigger] f[k]),
        forall|k: int| 0 <= k < f.len() ==> is_gap(#[trigger] g[k]),
        is_blank(tail),
        tail.len() > 0 ==> tail[0] == ' ' || tail[0] == '\t',
        f.last().last() != '\r',
    ensures
        port_line(fields_text(f, g, tail, 0)) is None,
        f.len() == 1 ==> call_line(fields_text(f, g, tail, 0)) is None,
{
    let t = lemma_fields_stripped(f, g, tail, 0);
    let said = fields_text(f, g, t, 0);
    let none = Seq::<char>::empty();
    assert(none + said =~= said);
    lemma_fields_text(f, g, t, 0, none);
    assert(is_field(f[0]));
    assert(trim_start(said) == said);
    law_first_field(t, f[0], none);
    lemma_trim_front(t, none);
    assert(t + none =~= t);
    assert(trim_start(t).len() == 0);
    if f.len() > 1 {
        lemma_fields_text(f, g, t, 1, g[0]);
    }
    if f.len() > 2 {
        lemma_fields_text(f, g, t, 2, g[1]);
    }
    if f.len() > 3 {
        lemma_fields_text(f, g, t, 3, g[2]);
    }
    if f.len() > 4 {
        lemma_fields_text(f, g, t, 4, g[3]);
        assert(trim_end(trim_start(t)).len() == 0);
    }
}

proof fn lemma_cr_is_space()
    ensures
        is_space('\r'),
{
}

/// A line that is blank, or whose first character besides white space is a number
/// sign, says nothing, and carriage returns at its end are no part of it.
pub proof fn law_lines_that_say_nothing(blank: Seq<char>, rest: Seq<char>, line: Seq<char>)
    requires
        forall|i: int| 0 <= i < blank.len() ==> is_space(#[trigger] blank[i]),
    ensures
        port_line(blank) is None,
        call_line(blank) is None,
        port_line(blank + (seq!['#'] + rest)) is None,
        call_line(blank + (seq!['#'] + rest)) is None,
        port_line(line.push('\r')) == port_line(line),
        call_line(line.push('\r')) == call_line(line),
{
    lemma_strip_blank(blank);
    let s = seq!['#'] + rest;
    lemma_strip_comment(blank, s);
    assert(line.push('\r').drop_last() =~= line);
    assert(strip_cr(line.push('\r')) == strip_cr(line));
}

proof fn lemma_strip_blank(blank: Seq<char>)
    requires
        forall|i: int| 0 <= i < blank.len() ==> is_space(#[trigger] blank[i]),
    ensures
        trim_start(strip_cr(blank)).len() == 0,
    decreases blank.len(),
{
    if blank.len() > 0 && blank.last() == '\r' {
        lemma_strip_blank(blank.drop_last());
    } else {
        lemma_trim_front(blank, Seq::empty());
        assert(blank + Seq::<char>::empty() =~= blank);
    }
}

proof fn lemma_strip_comment(blank: Seq<char>, s: Seq<char>)
    requires
        forall|i: int| 0 <= i < blank.len() ==> is_space(#[trigger] blank[i]),
        s.len() > 0,
        s[0] == '#',
    ensures
        content_of(blank + s) is None,
    decreases s.len(),
{
    if s.len() > 1 && s.last() == '\r' {
        lemma_strip_comment(blank, s.drop_last());
        assert((blank + s).drop_last() =~= blank + s.drop_last());
        assert((blank + s).last() == '\r');
    } else {
        assert((blank + s).last() == s.last());
        lemma_trim_front(blank, s);
        lemma_number_sign();
        assert(trim_start(s) == s);
    }
}

proof fn lemma_number_sign()
    ensures
        !is_space('#'),
{
}

/// A port's callsign is in capitals; a trailing "-0" is dropped, and nothing else.
pub proof fn law_port_callsign(call: Seq<char>)
    ensures
        port_call(call + seq!['-', '0']) == upper_text(call),
        !(call.len() >= 2 && call[call.len() - 2] == '-' && call[call.len() - 1] == '0')
            ==> port_call(call) == upper_text(call),
{
    let s = call + seq!['-', '0'];
    lemma_upper_marks();
    assert(upper_text(s)[s.len() - 2] == '-' && upper_text(s)[s.len() - 1] == '0');
    assert(upper_text(s).take(s.len() - 2) =~= upper_text(call));
    if call.len() >= 2 {
        lemma_upper_mark(call[call.len() - 2]);
        lemma_upper_mark(call[call.len() - 1]);
    }
}

proof fn lemma_upper_marks()
    ensures
        upper('-') == '-',
        upper('0') == '0',
{
}

proof fn lemma_upper_mark(c: char)
    ensures
        upper(c) == '-' <==> c == '-',
        upper(c) == '0' <==> c == '0',
{
}

/// One more line: where it is well formed, and no port of the lines before it has its
/// name, up to case, or its very callsign, SSID and all, it is one more port;
/// otherwise the ports are what they were.
pub proof fn law_one_more_port_line(ls: Seq<Seq<char>>, line: Seq<char>)
    ensures
        ports_of(Seq::empty()).len() == 0,
        ({
            let before = ports_of(ls);
            let after = ports_of(ls.push(line));
            match port_line(line) {
                None => after == before,
                Some(p) => {
                    let taken = exists|k: int|
                        0 <= k < before.len() && (same_ignoring_case(
                            (#[trigger] before[k]).name,
                            p.name,
                        ) || before[k].call == p.call);
                    &&& !taken ==> after == before.push(p)
                    &&& taken ==> after == before
                },
            }
        }),
{
    assert(ls.push(line).drop_last() =~= ls);
}

/// A well-formed line whose name and callsign differ from those of every other
/// well-formed line is a port, wherever it stands.
pub proof fn law_a_line_of_its_own_is_a_port(ls: Seq<Seq<char>>, i: int)
    requires
        0 <= i < ls.len(),
        port_line(ls[i]) is Some,
        forall|j: int|
            0 <= j < i && port_line(#[trigger] ls[j]) is Some ==> !same_ignoring_case(
                port_line(ls[j])->Some_0.name,
                port_line(ls[i])->Some_0.name,
            ) && port_line(ls[j])->Some_0.call != port_line(ls[i])->Some_0.call,
    ensures
        ports_of(ls).contains(port_line(ls[i])->Some_0),
    decreases ls.len(),
{
    let p = port_line(ls[i])->Some_0;
    let before = ports_of(ls.drop_last());
    assert(ls.drop_last().push(ls.last()) =~= ls);
    law_one_more_port_line(ls.drop_last(), ls.last());
    if i == ls.len() - 1 {
        assert forall|k: int| 0 <= k < before.len() implies !(same_ignoring_case(
            (#[trigger] before[k]).name,
            p.name,
        ) || before[k].call == p.call) by {
            law_every_port_has_a_line(ls.drop_last(), k);
            let j = choose|j: int|
                0 <= j < ls.drop_last().len() && port_line(#[trigger] ls.drop_last()[j]) == Some(
                    before[k],
                );
            assert(port_line(ls[j]) == Some(before[k]));
        }
        assert(ports_of(ls)[before.len() as int] == p);
    } else {
        assert forall|j: int| 0 <= j < i && port_line(#[trigger] ls.drop_last()[j]) is Some implies
            !same_ignoring_case(port_line(ls.drop_last()[j])->Some_0.name, p.name) && port_line(
            ls.drop_last()[j],
        )->Some_0.call != p.call by {
            assert(ls.drop_last()[j] == ls[j]);
        }
        law_a_line_of_its_own_is_a_port(ls.drop_last(), i);
        let k = choose|k: int| 0 <= k < before.len() && before[k] == p;
        assert(ports_of(ls)[k] == p);
    }
}

/// A whole number: digits, perhaps behind a sign, within 32 bits. Nothing else is
/// one.
pub proof fn law_numbers(s: Seq<char>)
    ensures
        s.len() > 0 && all_digits(s) ==> parsed_i32(s) == (if digits_value(s) <= 2147483647 {
            Some(digits_value(s) as i32)
        } else {
            None
        }),
        s.len() > 0 && all_digits(s) ==> parsed_i32(seq!['+'] + s) == parsed_i32(s),
        s.len() > 0 && all_digits(s) ==> parsed_i32(seq!['-'] + s) == (if digits_value(s)
            <= 2147483648 {
            Some((-(digits_value(s) as int)) as i32)
        } else {
            None
        }),
        parsed_i32(Seq::empty()) is None,
        s.len() > 0 && s[0] != '+' && s[0] != '-' && !all_digits(s) ==> parsed_i32(s) is None,
        s.len() > 0 && (s[0] == '+' || s[0] == '-') && !(s.len() > 1 && all_digits(s.skip(1)))
            ==> parsed_i32(s) is None,
{
    if s.len() > 0 && all_digits(s) {
        assert('0' <= s[0] <= '9');
        assert((seq!['+'] + s).drop_first() =~= s);
        assert((seq!['-'] + s).drop_first() =~= s);
    }
    if s.len() > 0 {
        assert(s.skip(1) =~= s.drop_first());
    }
}

/// A line of the map from users to callsigns: a number and a callsign, between gaps;
/// what follows does not matter.
pub proof fn law_a_user_line(
    lead: Seq<char>,
    user: Seq<char>,
    gap: Seq<char>,
    call: Seq<char>,
    rest: Seq<char>,
)
    requires
        is_blank(lead),
        is_field(user),
        is_field(call),
        is_gap(gap),
        user[0] != '#',
        rest.len() > 0 ==> (rest[0] == ' ' || rest[0] == '\t') && rest.last() != '\r',
        rest.len() == 0 ==> call.last() != '\r',
    ensures
        ({
            let line = lead + (user + (gap + (call + rest)));
            if parsed_i32(user) is Some && entry_of(upper_text(call)) is Some {
                call_line(line) == Some(
                    CallModel { uid: parsed_i32(user)->Some_0, call: upper_text(call) },
                )
            } else {
                call_line(line) is None
            }
        }),
{
    let none = Seq::<char>::empty();
    let s1 = gap + (call + rest);
    let said = user + s1;
    let line = lead + said;
    law_first_field(none, user, s1);
    assert(none + (user + s1) =~= said);
    law_first_field(gap, call, rest);
    assert(said[0] == user[0]);
    if rest.len() > 0 {
        assert(line.last() == rest.last());
    } else {
        assert(line.last() == call.last());
    }
    assert(strip_cr(line) == line);
    lemma_trim_front(lead, said);
    assert(trim_start(said) == said);
}

/// One more line of the map: where it is well formed and its user has no callsign
/// yet, it gives one more; otherwise the callsigns are what they were.
pub proof fn law_one_more_user_line(ls: Seq<Seq<char>>, line: Seq<char>)
    ensures
        calls_of(Seq::empty()).len() == 0,
        ({
            let before = calls_of(ls);
            let after = calls_of(ls.push(line));
            match call_line(line) {
                None => after == before,
                Some(c) => {
                    let taken = exists|k: int|
                        0 <= k < before.len() && (#[trigger] before[k]).uid == c.uid;
                    &&& !taken ==> after == before.push(c)
                    &&& taken ==> after == before
                },
            }
        }),
{
    assert(ls.push(line).drop_last() =~= ls);
}

/// A user's callsign is that of the first entry with the user's number.
pub proof fn law_a_users_callsign(calls: Seq<CallModel>, uid: i32)
    ensures
        match call_of_uid(calls, uid) {
            Some(c) => exists|k: int|
                0 <= k < calls.len() && (#[trigger] calls[k]) == (CallModel { uid, call: c })
                    && forall|j: int| 0 <= j < k ==> (#[trigger] calls[j]).uid != uid,
            None => forall|k: int| 0 <= k < calls.len() ==> (#[trigger] calls[k]).uid != uid,
        },
    decreases calls.len(),
{
    if calls.len() > 0 {
        if calls[0].uid == uid {
            assert(calls[0] == (CallModel { uid, call: calls[0].call }));
        } else {
            let t = calls.drop_first();
            law_a_users_callsign(t, uid);
            match call_of_uid(t, uid) {
                Some(c) => {
                    let k = choose|k: int|
                        0 <= k < t.len() && (#[trigger] t[k]) == (CallModel { uid, call: c })
                            && forall|j: int| 0 <= j < k ==> (#[trigger] t[j]).uid != uid;
                    assert(calls[k + 1] == (CallModel { uid, call: c }));
                    assert forall|j: int| 0 <= j < k + 1 implies (#[trigger] calls[j]).uid
                        != uid by {
                        if j > 0 {
                            assert(t[j - 1] == calls[j]);
                        }
                    }
                },
                None => {
                    assert forall|k: int| 0 <= k < calls.len() implies (#[trigger] calls[k]).uid
                        != uid by {
                        if k > 0 {
                            assert(t[k - 1] == calls[k]);
                        }
                    }
                },
            }
        }
    }
}

/// Where a user's callsign comes from: an override that is not empty, else the
/// user's entry, else the first port.
pub proof fn law_where_a_callsign_comes_from(
    override_call: Option<&str>,
    calls: Seq<CallModel>,
    ports: Seq<PortModel>,
    uid: i32,
)
    ensures
        ({
            let r = resolved_call(override_call, calls, ports, uid);
            let set = override_call is Some && override_call->Some_0@.len() > 0;
            &&& set ==> r == Some(override_call->Some_0@)
            &&& !set && call_of_uid(calls, uid) is Some ==> r == call_of_uid(calls, uid)
            &&& !set && call_of_uid(calls, uid) is None && ports.len() > 0 ==> r == Some(
                ports[0].call,
            )
            &&& !set && call_of_uid(calls, uid) is None && ports.len() == 0 ==> r is None
        }),
{
}

/// Files are read once: what is there stays, and only an empty table takes what a
/// file says, if it can be read.
pub proof fn law_tables_are_filled_once(
    ports: Seq<PortModel>,
    calls: Seq<CallModel>,
    content: &str,
)
    ensures
        ports.len() > 0 ==> loaded(ports, Some(content)) == ports && loaded(ports, None) == ports,
        ports.len() == 0 ==> loaded(ports, Some(content)) == ports_of(lines(content@)) && loaded(
            ports,
            None,
        ) == ports,
        calls.len() > 0 ==> calls_loaded(calls, Some(content)) == calls && calls_loaded(
            calls,
            None,
        ) == calls,
        calls.len() == 0 ==> calls_loaded(calls, Some(content)) == calls_of(lines(content@))
            && calls_loaded(calls, None) == calls,
{
}

/// A callsign without its SSID of 0, in capitals: "-0" is dropped where it is the
/// whole of what follows the only hyphen before it, and nothing else is.
pub proof fn law_callsign_without_ssid_zero(s: Seq<char>)
    ensures
        ({
            let zero = s.len() >= 2 && s[s.len() - 2] == '-' && s[s.len() - 1] == '0' && forall|
                i: int,
            |
                0 <= i < s.len() - 2 ==> #[trigger] s[i] != '-';
            &&& zero ==> normal_call(s) == upper_text(s.take(s.len() - 2))
            &&& !zero ==> normal_call(s) == upper_text(s)
        }),
{
    let u = upper_text(s);
    lemma_hyphen_is_first(u, 0);
    let h = hyphen(u, 0);
    assert forall|i: int| 0 <= i < s.len() implies (u[i] == '-' <==> s[i] == '-') && (u[i] == '0'
        <==> s[i] == '0') by {
        lemma_upper_mark(s[i]);
    }
    if s.len() >= 2 {
        assert(upper_text(s.take(s.len() - 2)) =~= u.take(s.len() - 2));
        assert forall|i: int| 0 <= i < s.len() - 2 implies (#[trigger] s[i] == '-' <==> u[i]
            == '-') by {
            lemma_upper_mark(s[i]);
        }
    }
}

proof fn lemma_hyphen_is_first(s: Seq<char>, i: int)
    requires
        0 <= i <= s.len(),
    ensures
        i <= hyphen(s, i) <= s.len(),
        hyphen(s, i) < s.len() ==> s[hyphen(s, i)] == '-',
        forall|k: int| i <= k < hyphen(s, i) ==> #[trigger] s[k] != '-',
    decreases s.len() - i,
{
    if i < s.len() && s[i] != '-' {
        lemma_hyphen_is_first(s, i + 1);
    }
}

/// A query finds the first port that has its name, up to case, or its callsign, up
/// to case and an SSID of 0; where none has, it finds none. The port behind it is the
/// next in order.
pub proof fn law_what_a_query_finds(ports: Seq<PortModel>, query: Seq<char>, i: int)
    requires
        0 <= i <= ports.len(),
    ensures
        match found(ports, query, i) {
            Some(k) => {
                &&& i <= k < ports.len()
                &&& same_ignoring_case(ports[k].name, query) || normal_call(ports[k].call)
                    == normal_call(query)
                &&& forall|j: int|
                    i <= j < k ==> !same_ignoring_case((#[trigger] ports[j]).name, query)
                        && normal_call(ports[j].call) != normal_call(query)
            },
            None => forall|j: int|
                i <= j < ports.len() ==> !same_ignoring_case((#[trigger] ports[j]).name, query)
                    && normal_call(ports[j].call) != normal_call(query),
        },
        name_behind(ports, query) == (match found(ports, query, 0) {
            Some(k) => if k + 1 < ports.len() {
                Some(ports[k + 1].name)
            } else {
                None
            },
            None => None,
        }),
    decreases ports.len() - i,
{
    if i < ports.len() {
        law_what_a_query_finds(ports, query, i + 1);
    }
}

/// An address finds the first port whose callsign encodes to it, and a device the
/// first port of that name, case and all.
pub proof fn law_what_an_address_finds(
    ports: Seq<PortModel>,
    call: Seq<u8>,
    device: Seq<char>,
    i: int,
)
    requires
        0 <= i <= ports.len(),
    ensures
        match found_call(ports, call, i) {
            Some(k) => {
                &&& i <= k < ports.len()
                &&& entry_of(ports[k].call) is Some
                &&& comparison(call, entry_of(ports[k].call)->Some_0) == 0
                &&& forall|j: int|
                    i <= j < k && entry_of((#[trigger] ports[j]).call) is Some ==> comparison(
                        call,
                        entry_of(ports[j].call)->Some_0,
                    ) != 0
            },
            None => forall|j: int|
                i <= j < ports.len() && entry_of((#[trigger] ports[j]).call) is Some ==> comparison(
                    call,
                    entry_of(ports[j].call)->Some_0,
                ) != 0,
        },
        match found_device(ports, device, i) {
            Some(k) => i <= k < ports.len() && ports[k].name == device && forall|j: int|
                i <= j < k ==> (#[trigger] ports[j]).name != device,
            None => forall|j: int| i <= j < ports.len() ==> (#[trigger] ports[j]).name != device,
        },
    decreases ports.len() - i,
{
    if i < ports.len() {
        law_what_an_address_finds(ports, call, device, i + 1);
    }
}

/// A letter or digit of a callsign.
pub open spec fn call_char(b: u8) -> bool {
    48 <= b <= 57 || 65 <= b <= 90 || 97 <= b <= 122
}

/// The letters and digits of a callsign.
pub open spec fn call_chars(b: Seq<u8>) -> bool {
    forall|i: int| 0 <= i < b.len() ==> call_char(#[trigger] b[i])
}

/// A callsign on the air: each character in capitals and doubled, padded with
/// doubled spaces to six, and then twice the SSID.
pub open spec fn on_the_air(letters: Seq<u8>, ssid: int) -> Seq<u8> {
    Seq::new(
        7,
        |i: int|
            if i == 6 {
                (2 * ssid) as u8
            } else if i >= letters.len() {
                64u8
            } else if letters[i] >= 97 {
                (2 * (letters[i] - 32)) as u8
            } else {
                (2 * letters[i]) as u8
            },
    )
}

/// How a callsign is encoded: up to six letters and digits, and behind a hyphen a
/// number up to 15; without one the SSID is 0. A larger or negative number is refused,
/// and so is a hyphen without one. Spaces and tabs before the number, a sign and what
/// follows the digits are passed over. Behind six characters any one character may
/// stand in for the hyphen.
pub proof fn law_how_a_callsign_is_encoded(
    letters: Seq<u8>,
    mark: u8,
    blanks: Seq<u8>,
    sign: Seq<u8>,
    digits: Seq<u8>,
    rest: Seq<u8>,
)
    requires
        letters.len() <= 6,
        call_chars(letters),
        mark == 45 || letters.len() == 6,
        forall|i: int| 0 <= i < blanks.len() ==> #[trigger] blanks[i] == 32 || blanks[i] == 9,
        sign.len() == 0 || sign == seq![43u8] || sign == seq![45u8],
        forall|i: int| 0 <= i < digits.len() ==> 48 <= #[trigger] digits[i] <= 57,
        rest.len() > 0 ==> !(48 <= rest[0] <= 57),
        digits.len() == 0 && rest.len() > 0 && sign.len() == 0 ==> rest[0] != 32 && rest[0] != 9
            && rest[0] != 43 && rest[0] != 45,
    ensures
        encode_call(letters) == Some(on_the_air(letters, 0)),
        ({
            let value = if sign.len() > 0 && sign[0] == 45 {
                -(number_value(digits) as int)
            } else {
                number_value(digits) as int
            };
            encode_call(letters + (seq![mark] + (blanks + (sign + (digits + rest))))) == (
            if digits.len() > 0 && 0 <= value <= 15 {
                Some(on_the_air(letters, value))
            } else {
                None
            })
        }),
{
    let n = letters.len() as int;
    assert forall|i: int| 0 <= i < n implies #[trigger] letters[i] != 45 by {
        assert(call_char(letters[i]));
    }
    lemma_call_end_is(letters, n, 0);
    assert(shifted(letters) =~= on_the_air(letters, 0)) by {
        assert forall|i: int| 0 <= i < 7 implies shifted(letters)[i] == on_the_air(letters, 0)[i] by {
            if i < n {
                assert(call_char(letters[i]));
            }
        }
    }
    let u = digits + rest;
    let t = sign + u;
    let behind = blanks + t;
    let b = letters + (seq![mark] + behind);
    assert forall|i: int| 0 <= i < n implies #[trigger] b[i] != 45 by {
        assert(b[i] == letters[i]);
    }
    assert(b[n] == mark);
    lemma_call_end_is(b, n, 0);
    assert(b.skip(n + 1) =~= behind);
    lemma_skip_blanks(blanks, t);
    assert forall|i: int| 0 <= i < digits.len() implies 48 <= #[trigger] u[i] <= 57 by {
        assert(u[i] == digits[i]);
    }
    lemma_digit_run(u, digits.len());
    assert(u.take(digits.len() as int) =~= digits);
    if sign.len() == 0 {
        assert(t =~= u);
        if digits.len() > 0 {
            assert(u[0] == digits[0]);
        } else {
            assert(u =~= rest);
        }
    } else {
        assert(t[0] == sign[0]);
        assert(t.drop_first() =~= u);
    }
    assert(skip_blanks(t) == t);
    assert forall|i: int| 0 <= i < n implies call_char(#[trigger] b[i]) by {
        assert(b[i] == letters[i]);
    }
    let value = if sign.len() > 0 && sign[0] == 45 {
        -(number_value(digits) as int)
    } else {
        number_value(digits) as int
    };
    if digits.len() > 0 && 0 <= value <= 15 {
        assert(scan_int(behind) == Some(value));
        assert(shifted(b) =~= on_the_air(letters, value)) by {
            assert forall|i: int| 0 <= i < 7 implies shifted(b)[i] == on_the_air(letters, value)[i] by {
                if i < n {
                    assert(b[i] == letters[i]);
                    assert(call_char(letters[i]));
                }
            }
        }
    }
}

proof fn lemma_skip_blanks(blanks: Seq<u8>, t: Seq<u8>)
    requires
        forall|i: int| 0 <= i < blanks.len() ==> #[trigger] blanks[i] == 32 || blanks[i] == 9,
    ensures
        skip_blanks(blanks + t) == skip_blanks(t),
    decreases blanks.len(),
{
    if blanks.len() > 0 {
        assert(blanks[0] == 32 || blanks[0] == 9);
        assert forall|i: int| 0 <= i < blanks.drop_first().len() implies #[trigger] blanks.drop_first()[i]
            == 32 || blanks.drop_first()[i] == 9 by {
            assert(blanks[i + 1] == 32 || blanks[i + 1] == 9);
        }
        lemma_skip_blanks(blanks.drop_first(), t);
        assert((blanks + t).drop_first() =~= blanks.drop_first() + t);
    } else {
        assert(blanks + t =~= t);
    }
}

/// A text with anything but letters and digits among its first six characters, before
/// its first hyphen, is no callsign.
pub proof fn law_bad_characters_are_refused(b: Seq<u8>, k: int)
    requires
        0 <= k < 6,
        k < b.len(),
        !call_char(b[k]),
        forall|i: int| 0 <= i <= k ==> #[trigger] b[i] != 45,
    ensures
        encode_call(b) is None,
{
    lemma_call_end_bounds(b, 0);
    assert(b[k] != 45);
}

/// The value of a run of digits: each counts ten times the next.
pub proof fn law_byte_digits_count_tenfold(s: Seq<u8>, d: u8)
    requires
        48 <= d <= 57,
    ensures
        number_value(Seq::empty()) == 0,
        number_value(s.push(d)) == 10 * number_value(s) + (d - 48),
{
    assert(s.push(d).drop_last() =~= s);
}

/// One character of a decoded callsign; nothing for the padding.
pub open spec fn one_char(b: u8) -> Seq<char> {
    if b / 2 == 32 {
        Seq::empty()
    } else {
        seq![(b / 2) as char]
    }
}

/// How a callsign is decoded: half of each of six bytes is a character, spaces are
/// left out, and four bits of the seventh are the SSID, left out where it is 0.
pub proof fn law_how_a_callsign_is_decoded(a: Seq<u8>)
    requires
        a.len() == 7,
    ensures
        decode_call(a) == one_char(a[0]) + one_char(a[1]) + one_char(a[2]) + one_char(a[3])
            + one_char(a[4]) + one_char(a[5]) + (if (a[6] / 2) % 16 == 0 {
            Seq::<char>::empty()
        } else {
            seq!['-'] + decimal(((a[6] / 2) % 16) as nat)
        }),
{
    reveal_with_fuel(call_letters, 7);
    assert(call_letters(a, 6) =~= one_char(a[0]) + one_char(a[1]) + one_char(a[2]) + one_char(a[3])
        + one_char(a[4]) + one_char(a[5]));
}

/// How addresses compare: 1 where one of the six characters differs, 2 where only
/// the SSID does, else 0; the lowest bit of a byte does not count.
pub proof fn law_how_addresses_compare(a: Seq<u8>, b: Seq<u8>)
    requires
        a.len() == 7,
        b.len() == 7,
    ensures
        ({
            let same = a[0] / 2 == b[0] / 2 && a[1] / 2 == b[1] / 2 && a[2] / 2 == b[2] / 2 && a[3]
                / 2 == b[3] / 2 && a[4] / 2 == b[4] / 2 && a[5] / 2 == b[5] / 2;
            comparison(a, b) == (if !same {
                1i32
            } else if (a[6] / 2) % 16 != (b[6] / 2) % 16 {
                2
            } else {
                0
            })
        }),
{
}

/// A valid address has six capitals, digits or spaces.
pub proof fn law_valid_addresses(a: Seq<u8>)
    requires
        a.len() == 7,
    ensures
        is_valid(a) <==> forall|i: int|
            0 <= i < 6 ==> (65 <= (#[trigger] a[i]) / 2 <= 90 || 48 <= a[i] / 2 <= 57 || a[i] / 2
                == 32),
{
}

/// ASCII letters change their case, and nothing else does.
pub proof fn law_case_of_bytes(b: u8)
    ensures
        97 <= b <= 122 ==> upper_byte(b) == b - 32,
        !(97 <= b <= 122) ==> upper_byte(b) == b,
        65 <= b <= 90 ==> lower_byte(b) == b + 32,
        !(65 <= b <= 90) ==> lower_byte(b) == b,
{
}

/// The path that words name: the callsign and up to eight digipeaters, as they
/// stand, with or without "v" or "via" between; no words name the empty callsign.
pub proof fn law_paths(call: Seq<char>, via: Seq<char>, digis: Seq<Seq<char>>)
    requires
        is_via(via),
        digis.len() > 0 ==> !is_via(digis[0]),
    ensures
        path_of(Seq::empty()) == seq![Seq::<char>::empty()],
        path_of(seq![call]) == seq![call],
        digis.len() <= 8 ==> path_of(seq![call] + digis) == seq![call] + digis,
        digis.len() <= 8 ==> path_of(seq![call, via] + digis) == seq![call] + digis,
        digis.len() > 8 ==> path_of(seq![call] + digis) == seq![call] + digis.take(8),
        digis.len() > 8 ==> path_of(seq![call, via] + digis) == seq![call] + digis.take(8),
{
    assert(path_of(Seq::empty()) =~= seq![Seq::<char>::empty()]);
    assert(seq![call].drop_first() =~= Seq::<Seq<char>>::empty());
    assert(skip_vias(seq![call].drop_first()) =~= Seq::<Seq<char>>::empty());
    assert(path_of(seq![call]) =~= seq![call]);
    assert((seq![call] + digis).drop_first() =~= digis);
    assert((seq![call, via] + digis).drop_first() =~= seq![via] + digis);
    assert((seq![via] + digis).drop_first() =~= digis);
    assert(skip_vias(digis) == digis);
    assert(skip_vias(seq![via] + digis) == digis);
    if digis.len() > 8 {
        assert((seq![call] + digis).take(9) =~= seq![call] + digis.take(8));
    }
}

/// However often the word between a callsign and its digipeaters stands there, it
/// changes nothing.
pub proof fn law_repeated_via(call: Seq<char>, via: Seq<char>, rest: Seq<Seq<char>>)
    requires
        is_via(via),
    ensures
        path_of(seq![call, via] + rest) == path_of(seq![call] + rest),
{
    assert((seq![call] + rest).drop_first() =~= rest);
    assert((seq![call, via] + rest).drop_first() =~= seq![via] + rest);
    assert((seq![via] + rest).drop_first() =~= rest);
    assert(skip_vias(seq![via] + rest) == skip_vias(rest));
}

/// The word between a callsign and its digipeaters is "v" or "via", in any case.
pub proof fn law_the_word_via(t: Seq<char>)
    ensures
        is_via(t) <==> (t.len() == 1 && same_letter(t[0], 'v')) || (t.len() == 3 && same_letter(
            t[0],
            'v',
        ) && same_letter(t[1], 'i') && same_letter(t[2], 'a')),
{
    reveal_strlit("v");
    reveal_strlit("via");
    law_same_up_to_case(t, "v"@);
    law_same_up_to_case(t, "via"@);
}

/// What a filled address holds where every entry of the path is a callsign: the
/// family 3, the callsign, as many digipeaters as the path has behind it, each at its
/// place, and nothing else is touched; the result is 72. Where one is no callsign, it
/// is -1.
pub proof fn law_filled_addresses(
    before: SaxModel,
    path: Seq<Seq<char>>,
    after: SaxModel,
    r: i32,
)
    requires
        0 < path.len() <= 9,
        before.digis.len() == 8,
        filled(before, path, after, r),
    ensures
        ({
            let good = forall|k: int| 0 <= k < path.len() ==> entry_of(#[trigger] path[k]) is Some;
            &&& !good ==> {
                &&& r == -1
                &&& after.family == before.family
                &&& after.ndigis == before.ndigis
                &&& entry_of(path[0]) is None ==> after.call == before.call && after.digis
                    == before.digis
                &&& entry_of(path[0]) is Some ==> Some(after.call) == entry_of(path[0])
            }
            &&& good ==> {
                &&& r == 72
                &&& after.family == 3
                &&& after.ndigis == path.len() - 1
                &&& Some(after.call) == entry_of(path[0])
                &&& after.digis.len() == 8
                &&& forall|k: int|
                    0 <= k < 8 ==> #[trigger] after.digis[k] == (if k + 1 < path.len() {
                        entry_of(path[k + 1])->Some_0
                    } else {
                        before.digis[k]
                    })
            }
        }),
{
    assert(callsigns(path, path.len() as int) <==> forall|k: int|
        0 <= k < path.len() ==> entry_of(#[trigger] path[k]) is Some);
    if callsigns(path, path.len() as int) {
        assert(entry_of(path[0]) is Some);
    }
}

/// Where filling an address fails, the entries before the first that is no callsign
/// have been placed, and no others.
pub proof fn law_half_filled_addresses(
    before: SaxModel,
    path: Seq<Seq<char>>,
    after: SaxModel,
    r: i32,
    bad: int,
)
    requires
        before.digis.len() == 8,
        0 <= bad < path.len() <= 9,
        entry_of(path[bad]) is None,
        forall|k: int| 0 <= k < bad ==> entry_of(#[trigger] path[k]) is Some,
        filled(before, path, after, r),
    ensures
        r == -1,
        after.digis.len() == 8,
        forall|k: int|
            0 <= k < 8 ==> #[trigger] after.digis[k] == (if k + 1 < bad {
                entry_of(path[k + 1])->Some_0
            } else {
                before.digis[k]
            }),
{
    assert(!callsigns(path, path.len() as int));
    let n = choose|n: int|
        0 <= n < path.len() && callsigns(path, n) && entry_of(#[trigger] path[n]) is None && after
            == placed(before, path, n);
    if n < bad {
        assert(entry_of(path[n]) is Some);
    }
    if bad < n {
        assert(entry_of(path[bad]) is Some);
    }
}

/// What an argument of the C interface finds: a null pointer and undecodable bytes
/// find no port, a text what it asks for. To a walk over the ports a null pointer is
/// the start.
pub proof fn law_arguments(ports: Seq<PortModel>, name: CText)
    ensures
        name is Text ==> port_named(ports, name) == found(ports, name->Text_0@, 0),
        !(name is Text) ==> port_named(ports, name) is None,
        name is Undecodable || ports.len() == 0 ==> next_name(ports, name) is None,
        name is Null && ports.len() > 0 ==> next_name(ports, name) == Some(ports[0].name),
        name is Text ==> next_name(ports, name) == name_behind(ports, name->Text_0@),
{
    if name is Text && ports.len() == 0 {
        law_what_a_query_finds(ports, name->Text_0@, 0);
    }
}

/// A byte is part of a C string where no zero stands before it or is it.
pub proof fn law_ends_of_strings(s: Seq<u8>, i: int, k: int)
    requires
        0 <= k < s.len(),
        0 <= i < s.len(),
        s[k] == 0,
        forall|j: int| 0 <= j < k ==> #[trigger] s[j] != 0,
    ensures
        before_nul(s, i) <==> i < k,
{
}

/// A Rose address is ten digits, and nothing else is one. Each byte holds two of
/// them, the first in its upper half; and its text is these digits again.
pub proof fn law_rose_addresses(t: Seq<char>)
    ensures
        rose_of(t) is Some <==> t.len() == 10 && all_digits(t),
        rose_of(t) matches Some(a) ==> a.len() == 5 && forall|i: int|
            0 <= i < 5 ==> (#[trigger] a[i]) / 16 + 48 == t[2 * i] as u32 && a[i] % 16 + 48 == t[2
                * i + 1] as u32,
{
    let b = encode_utf8(t);
    if t.len() == 10 && all_digits(t) {
        assert forall|i: int| 0 <= i < t.len() implies '\0' <= #[trigger] t[i] <= '\u{7f}' by {
            assert(is_digit(t[i]));
        }
        assert(is_ascii_chars(t));
        is_ascii_chars_encode_utf8(t);
        assert forall|i: int| 0 <= i < 10 implies 48 <= #[trigger] b[i] <= 57 by {
            assert(is_digit(t[i]));
            assert(b[i] == t[i] as u8);
        }
    }
    if is_rose(b) {
        lemma_ascii_bytes(t);
        is_ascii_chars_encode_utf8(t);
        assert forall|i: int| 0 <= i < 10 implies is_digit(#[trigger] t[i]) && t[i] as u32 == b[i] by {
            assert(b[i] == t[i] as u8);
            assert(48 <= b[i] <= 57);
            assert('\0' <= t[i] <= '\u{7f}');
        }
        let a = packed(b);
        assert forall|i: int| 0 <= i < 5 implies (#[trigger] a[i]) / 16 + 48 == t[2 * i] as u32 && a[i]
            % 16 + 48 == t[2 * i + 1] as u32 by {
            assert(48 <= b[2 * i] <= 57 && 48 <= b[2 * i + 1] <= 57);
            assert(t[2 * i] as u32 == b[2 * i] && t[2 * i + 1] as u32 == b[2 * i + 1]);
        }
    }
}

/// The text of a Rose address has a character for each half byte, the upper half
/// first.
pub proof fn law_rose_texts(a: Seq<u8>, i: int)
    requires
        a.len() == 5,
        0 <= i < 5,
    ensures
        rose_text(a).len() == 10,
        rose_text(a)[2 * i] as u32 == 48 + a[i] / 16,
        rose_text(a)[2 * i + 1] as u32 == 48 + a[i] % 16,
{
    assert((2 * i) / 2 == i && (2 * i + 1) / 2 == i);
}

/// The values of ports, users, addresses and lists of them are their own, field by
/// field and one by one.
pub proof fn law_values_of_entries(
    port: ParsedPort,
    user: CallEntry,
    sax: FullSockaddrAx25,
    ports: Seq<ParsedPort>,
    users: Seq<CallEntry>,
    texts: Seq<String>,
    lists: Seq<Vec<char>>,
    text: &str,
    entry: [u8; 7],
    i: int,
)
    ensures
        port@.name == port.name@,
        port@.call == port.call@,
        port@.baud == port.baud,
        port@.paclen == port.paclen,
        port@.window == port.window,
        port@.description == port.description@,
        user@.uid == user.uid,
        user@.call == user.call@,
        sax@.family == sax.fsa_ax25.sax25_family,
        sax@.call == sax.fsa_ax25.sax25_call.ax25_call@,
        sax@.ndigis == sax.fsa_ax25.sax25_ndigis,
        sax@.digis.len() == 8,
        0 <= i < 8 ==> sax@.digis[i] == sax.fsa_digipeater@[i].ax25_call@,
        ports_view(ports).len() == ports.len(),
        0 <= i < ports.len() ==> ports_view(ports)[i] == ports[i]@,
        calls_view(users).len() == users.len(),
        0 <= i < users.len() ==> calls_view(users)[i] == users[i]@,
        texts_view(texts).len() == texts.len(),
        0 <= i < texts.len() ==> texts_view(texts)[i] == texts[i]@,
        char_lists_view(lists).len() == lists.len(),
        0 <= i < lists.len() ==> char_lists_view(lists)[i] == lists[i]@,
        name_view(Some(text)) == Some(text@),
        name_view(None) is None,
        entry_view(Some(entry)) == Some(entry@),
        entry_view(None) is None,
{
}

} // verus!
