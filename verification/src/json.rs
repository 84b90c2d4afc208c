//! JSON: text re-laid out with one member or item per line and nested indentation.
//!
//! The layout works on the characters themselves: strings, numbers and literals are
//! copied as they stand, objects and arrays are broken over lines.
use vstd::prelude::*;
use crate::Renderable;
use crate::console::{Console, ConsoleOptions};
use crate::highlighter::{Highlighter, json_highlighter, json_pattern, json_pattern_spec, pattern_compiles, regex_compiles, apply_hits, named_hits};
use crate::measure::{Measurement, measure_text};
use crate::segment::{Segment, segs_view};
use crate::strs::{push_repeat, push_str, repeat_spec, trim_spec};
use crate::text::{Text, TextModel, render_text_spec, plain_model};

verus! {

broadcast use vstd::string::group_string_axioms;

/// The characters from `pos` to the end.
pub open spec fn rest(cs: Seq<char>, pos: int) -> Seq<char> {
    cs.subrange(pos, cs.len() as int)
}

/// ASCII white space: space, tab, line feed, form feed, carriage return.
pub open spec fn is_ascii_ws(c: char) -> bool {
    c == ' ' || c == '\t' || c == '\n' || c == '\r' || (c as u32) == 12
}

/// The characters with leading ASCII white space removed.
pub open spec fn skip_ws(s: Seq<char>) -> Seq<char>
    decreases s.len(),
{
    if s.len() > 0 && is_ascii_ws(s[0]) {
        skip_ws(s.drop_first())
    } else {
        s
    }
}

/// The rest of a string token after its opening quote, with what was read so far in
/// `acc`: a backslash takes the next character with it, a quote closes the token, and
/// the end of the input closes it too. Gives the token and what follows.
pub open spec fn string_body(s: Seq<char>, acc: Seq<char>) -> (Seq<char>, Seq<char>)
    decreases s.len(),
{
    if s.len() == 0 {
        (acc.push('"'), s)
    } else {
        let c = s[0];
        let t = s.drop_first();
        if c == '\\' {
            if t.len() > 0 {
                string_body(t.drop_first(), acc + seq!['\\', t[0]])
            } else {
                string_body(t, acc.push('\\'))
            }
        } else if c == '"' {
            (acc.push('"'), t)
        } else {
            string_body(t, acc.push(c))
        }
    }
}

/// A string token at the start, and what follows it.
pub open spec fn fmt_string(s: Seq<char>) -> Option<(Seq<char>, Seq<char>)> {
    if s.len() == 0 || s[0] != '"' {
        None
    } else {
        Some(string_body(s.drop_first(), seq!['"']))
    }
}

/// Characters that make up a number: digits, `.`, `-`, `+`, `e`, `E`.
pub open spec fn is_number_char(c: char) -> bool {
    (48 <= (c as u32) && (c as u32) <= 57) || c == '.' || c == '-' || c == '+' || c == 'e' || c == 'E'
}

/// How many number characters lead.
pub open spec fn number_len(s: Seq<char>) -> nat
    decreases s.len(),
{
    if s.len() > 0 && is_number_char(s[0]) {
        1 + number_len(s.drop_first())
    } else {
        0
    }
}

/// A number token at the start (the leading number characters, at least one), and
/// what follows it.
pub open spec fn fmt_number(s: Seq<char>) -> Option<(Seq<char>, Seq<char>)> {
    let n = number_len(s);
    if n == 0 {
        None
    } else {
        Some((s.take(n as int), s.skip(n as int)))
    }
}

/// `true` or `false` at the start, and what follows it.
pub open spec fn fmt_bool(s: Seq<char>) -> Option<(Seq<char>, Seq<char>)> {
    if s.len() >= 4 && s.take(4) == "true"@ {
        Some(("true"@, s.skip(4)))
    } else if s.len() >= 5 && s.take(5) == "false"@ {
        Some(("false"@, s.skip(5)))
    } else {
        None
    }
}

/// `null` at the start, and what follows it.
pub open spec fn fmt_null(s: Seq<char>) -> Option<(Seq<char>, Seq<char>)> {
    if s.len() >= 4 && s.take(4) == "null"@ {
        Some(("null"@, s.skip(4)))
    } else {
        None
    }
}

proof fn lemma_skip_ws(s: Seq<char>)
    ensures
        skip_ws(s).len() <= s.len(),
        s.skip(s.len() - skip_ws(s).len()) == skip_ws(s),
    decreases s.len(),
{
    if s.len() > 0 && is_ascii_ws(s[0]) {
        lemma_skip_ws(s.drop_first());
        assert(s.drop_first().skip(s.drop_first().len() - skip_ws(s).len()) =~= s.skip(s.len() - skip_ws(s).len()));
    } else {
        assert(s.skip(0) =~= s);
    }
}

proof fn lemma_string_body(s: Seq<char>, acc: Seq<char>)
    ensures
        string_body(s, acc).1.len() <= s.len(),
        s.skip(s.len() - string_body(s, acc).1.len()) == string_body(s, acc).1,
    decreases s.len(),
{
    if s.len() == 0 {
        assert(s.skip(0) =~= s);
    } else {
        let t = s.drop_first();
        if s[0] == '\\' {
            if t.len() > 0 {
                lemma_string_body(t.drop_first(), acc + seq!['\\', t[0]]);
                let r = string_body(s, acc).1;
                assert(t.drop_first().skip(t.drop_first().len() - r.len()) =~= s.skip(s.len() - r.len()));
            } else {
                lemma_string_body(t, acc.push('\\'));
                let r = string_body(s, acc).1;
                assert(t.skip(t.len() - r.len()) =~= s.skip(s.len() - r.len()));
            }
        } else if s[0] == '"' {
            assert(s.skip(s.len() - t.len()) =~= t);
        } else {
            lemma_string_body(t, acc.push(s[0]));
            let r = string_body(s, acc).1;
            assert(t.skip(t.len() - r.len()) =~= s.skip(s.len() - r.len()));
        }
    }
}

proof fn lemma_number_len(s: Seq<char>)
    ensures
        number_len(s) <= s.len(),
    decreases s.len(),
{
    if s.len() > 0 && is_number_char(s[0]) {
        lemma_number_len(s.drop_first());
    }
}

/// The position after the ASCII white space at `pos`.
fn skip_whitespace(chars: &Vec<char>, pos: usize) -> (r: usize)
    requires
        pos <= chars@.len(),
    ensures
        pos <= r <= chars@.len(),
        rest(chars@, r as int) == skip_ws(rest(chars@, pos as int)),
{
    let mut p = pos;
    while p < chars.len() && (chars[p] == ' ' || chars[p] == '\t' || chars[p] == '\n' || chars[p] == '\r' || (chars[p] as u32) == 12)
        invariant
            pos <= p <= chars@.len(),
            skip_ws(rest(chars@, pos as int)) == skip_ws(rest(chars@, p as int)),
        decreases chars@.len() - p,
    {
        assert(rest(chars@, p as int).drop_first() =~= rest(chars@, p + 1));
        p = p + 1;
    }
    proof {
        if p < chars@.len() {
            assert(rest(chars@, p as int)[0] == chars@[p as int]);
        } else {
            assert(rest(chars@, p as int) =~= Seq::<char>::empty());
        }
    }
    p
}

/// The string token at `pos`, moving `pos` past it.
fn format_string(chars: &Vec<char>, pos: &mut usize) -> (r: Option<String>)
    requires
        *old(pos) <= chars@.len(),
    ensures
        *old(pos) <= *final(pos) <= chars@.len(),
        match r {
            Some(s) => *final(pos) > *old(pos)
                && fmt_string(rest(chars@, *old(pos) as int)) == Some((s@, rest(chars@, *final(pos) as int))),
            None => fmt_string(rest(chars@, *old(pos) as int)) is None && *final(pos) == *old(pos),
        },
{
    if *pos >= chars.len() || chars[*pos] != '"' {
        return None;
    }
    let ghost start = *pos;
    let mut result = String::new();
    result.push('"');
    *pos = *pos + 1;
    assert(rest(chars@, start as int).drop_first() =~= rest(chars@, start + 1));
    let mut closed = false;
    while !closed && *pos < chars.len()
        invariant
            start < *pos <= chars@.len(),
            !closed ==> string_body(rest(chars@, start + 1), seq!['"']) == string_body(rest(chars@, *pos as int), result@),
            closed ==> string_body(rest(chars@, start + 1), seq!['"']) == (result@, rest(chars@, *pos as int)),
        decreases chars@.len() - *pos,
    {
        let c = chars[*pos];
        let ghost here = rest(chars@, *pos as int);
        *pos = *pos + 1;
        assert(here.drop_first() =~= rest(chars@, *pos as int));
        if c == '\\' {
            let ghost r0 = result@;
            result.push('\\');
            if *pos < chars.len() {
                let d = chars[*pos];
                result.push(d);
                *pos = *pos + 1;
                assert(here.drop_first().drop_first() =~= rest(chars@, *pos as int));
                assert(result@ =~= r0 + seq!['\\', d]);
            }
        } else if c == '"' {
            result.push('"');
            closed = true;
        } else {
            result.push(c);
        }
    }
    if !closed {
        assert(rest(chars@, *pos as int) =~= Seq::<char>::empty());
        result.push('"');
    }
    Some(result)
}

fn number_char(c: char) -> (r: bool)
    ensures
        r == is_number_char(c),
{
    (48 <= (c as u32) && (c as u32) <= 57) || c == '.' || c == '-' || c == '+' || c == 'e' || c == 'E'
}

/// The number token at `pos`, moving `pos` past it.
fn format_number(chars: &Vec<char>, pos: &mut usize) -> (r: Option<String>)
    requires
        *old(pos) <= chars@.len(),
    ensures
        *old(pos) <= *final(pos) <= chars@.len(),
        match r {
            Some(s) => *final(pos) > *old(pos)
                && fmt_number(rest(chars@, *old(pos) as int)) == Some((s@, rest(chars@, *final(pos) as int))),
            None => fmt_number(rest(chars@, *old(pos) as int)) is None && *final(pos) == *old(pos),
        },
{
    let start = *pos;
    while *pos < chars.len() && number_char(chars[*pos])
        invariant
            start <= *pos <= chars@.len(),
            number_len(rest(chars@, start as int)) == (*pos - start) + number_len(rest(chars@, *pos as int)),
        decreases chars@.len() - *pos,
    {
        assert(rest(chars@, *pos as int).drop_first() =~= rest(chars@, *pos + 1));
        *pos = *pos + 1;
    }
    proof {
        if *pos < chars@.len() {
            assert(rest(chars@, *pos as int)[0] == chars@[*pos as int]);
        } else {
            assert(rest(chars@, *pos as int) =~= Seq::<char>::empty());
        }
    }
    if *pos == start {
        return None;
    }
    let r = crate::strs::sub_string(chars.as_slice(), start, *pos);
    assert(r@ =~= rest(chars@, start as int).take(*pos - start));
    assert(rest(chars@, *pos as int) =~= rest(chars@, start as int).skip(*pos - start));
    Some(r)
}

/// Whether the characters at `pos` begin with the given ones.
fn starts_with_at(chars: &Vec<char>, pos: usize, word: &str) -> (r: bool)
    requires
        pos <= chars@.len(),
    ensures
        r == (rest(chars@, pos as int).len() >= word@.len() && rest(chars@, pos as int).take(word@.len() as int) == word@),
{
    let n = word.unicode_len();
    if chars.len() - pos < n {
        return false;
    }
    let mut i: usize = 0;
    while i < n
        invariant
            n == word@.len(),
            pos + n <= chars.len(),
            i <= n,
            forall|k: int| 0 <= k < i ==> chars@[pos + k] == word@[k],
        decreases n - i,
    {
        if chars[pos + i] != word.get_char(i) {
            assert(rest(chars@, pos as int).take(n as int)[i as int] != word@[i as int]);
            return false;
        }
        i = i + 1;
    }
    assert(rest(chars@, pos as int).take(n as int) =~= word@);
    true
}

/// `true` or `false` at `pos`, moving `pos` past it.
fn format_bool(chars: &Vec<char>, pos: &mut usize) -> (r: Option<String>)
    requires
        *old(pos) <= chars@.len(),
    ensures
        *old(pos) <= *final(pos) <= chars@.len(),
        match r {
            Some(s) => *final(pos) > *old(pos)
                && fmt_bool(rest(chars@, *old(pos) as int)) == Some((s@, rest(chars@, *final(pos) as int))),
            None => fmt_bool(rest(chars@, *old(pos) as int)) is None && *final(pos) == *old(pos),
        },
{
    proof {
        reveal_strlit("true");
        reveal_strlit("false");
        assert("true"@.len() == 4);
        assert("false"@.len() == 5);
    }
    let ghost s0 = rest(chars@, *pos as int);
    let is_true = starts_with_at(chars, *pos, "true");
    if is_true {
        assert(rest(chars@, *pos as int).len() == chars@.len() - *pos);
        assert(chars@.len() == chars.len());
        *pos = *pos + 4;
        assert(rest(chars@, *pos as int) =~= s0.skip(4));
        Some(crate::strs::owned("true"))
    } else if starts_with_at(chars, *pos, "false") {
        assert(rest(chars@, *pos as int).len() == chars@.len() - *pos);
        assert(chars@.len() == chars.len());
        *pos = *pos + 5;
        assert(rest(chars@, *pos as int) =~= s0.skip(5));
        Some(crate::strs::owned("false"))
    } else {
        None
    }
}

/// `null` at `pos`, moving `pos` past it.
fn format_null(chars: &Vec<char>, pos: &mut usize) -> (r: Option<String>)
    requires
        *old(pos) <= chars@.len(),
    ensures
        *old(pos) <= *final(pos) <= chars@.len(),
        match r {
            Some(s) => *final(pos) > *old(pos)
                && fmt_null(rest(chars@, *old(pos) as int)) == Some((s@, rest(chars@, *final(pos) as int))),
            None => fmt_null(rest(chars@, *old(pos) as int)) is None && *final(pos) == *old(pos),
        },
{
    proof {
        reveal_strlit("null");
        assert("null"@.len() == 4);
    }
    let ghost s0 = rest(chars@, *pos as int);
    if starts_with_at(chars, *pos, "null") {
        assert(rest(chars@, *pos as int).len() == chars@.len() - *pos);
        assert(chars@.len() == chars.len());
        *pos = *pos + 4;
        assert(rest(chars@, *pos as int) =~= s0.skip(4));
        Some(crate::strs::owned("null"))
    } else {
        None
    }
}

/// An object member: key token and laid-out value.
pub type Entry = (Seq<char>, Seq<char>);

/// Lines joined with a comma and a line break between them.
pub open spec fn join_lines(ls: Seq<Seq<char>>) -> Seq<char>
    decreases ls.len(),
{
    if ls.len() == 0 {
        Seq::empty()
    } else if ls.len() == 1 {
        ls[0]
    } else {
        join_lines(ls.drop_last()) + seq![',', '\n'] + ls.last()
    }
}

/// The lines of object members at an indent: `<indent>key: value`.
pub open spec fn member_lines(es: Seq<Entry>, ind: nat) -> Seq<Seq<char>> {
    es.map_values(|e: Entry| repeat_spec(' ', ind) + e.0 + seq![':', ' '] + e.1)
}

/// The lines of array items at an indent.
pub open spec fn item_lines(vs: Seq<Seq<char>>, ind: nat) -> Seq<Seq<char>> {
    vs.map_values(|v: Seq<char>| repeat_spec(' ', ind) + v)
}

/// An object laid out at a nesting depth: one member per line, indented one level
/// deeper, the closing brace at the depth's indent.
pub open spec fn object_text(es: Seq<Entry>, depth: nat, indent: nat) -> Seq<char> {
    seq!['{', '\n'] + join_lines(member_lines(es, (depth + 1) * indent)) + seq!['\n']
        + repeat_spec(' ', depth * indent) + seq!['}']
}

/// An array laid out at a nesting depth: one item per line, indented one level deeper,
/// the closing bracket at the depth's indent.
pub open spec fn array_text(vs: Seq<Seq<char>>, depth: nat, indent: nat) -> Seq<char> {
    seq!['[', '\n'] + join_lines(item_lines(vs, (depth + 1) * indent)) + seq!['\n']
        + repeat_spec(' ', depth * indent) + seq![']']
}

/// Lexicographic order of keys, character by character (the order of their UTF-8
/// bytes).
pub open spec fn key_le(a: Seq<char>, b: Seq<char>) -> bool
    decreases a.len(),
{
    if a.len() == 0 {
        true
    } else if b.len() == 0 {
        false
    } else if (a[0] as u32) < (b[0] as u32) {
        true
    } else if (a[0] as u32) > (b[0] as u32) {
        false
    } else {
        key_le(a.drop_first(), b.drop_first())
    }
}

/// A member placed into members sorted by key, after those whose key is not greater.
pub open spec fn insert_entry(s: Seq<Entry>, e: Entry) -> Seq<Entry>
    decreases s.len(),
{
    if s.len() == 0 {
        seq![e]
    } else if key_le(s.last().0, e.0) {
        s.push(e)
    } else {
        insert_entry(s.drop_last(), e).push(s.last())
    }
}

/// Members sorted by key, members with equal keys in their order (a stable sort).
pub open spec fn sort_entries(es: Seq<Entry>) -> Seq<Entry>
    decreases es.len(),
{
    if es.len() == 0 {
        Seq::empty()
    } else {
        insert_entry(sort_entries(es.drop_last()), es.last())
    }
}

/// A result with `acc` put in front of what it holds.
pub open spec fn prepend<A>(acc: Seq<A>, r: Option<(Seq<A>, Seq<char>)>) -> Option<(Seq<A>, Seq<char>)> {
    match r {
        Some((x, t)) => Some((acc + x, t)),
        None => None,
    }
}

/// The value at the start (after white space) laid out at a nesting depth, and what
/// follows it: an object, an array, a string, `true`/`false`, `null`, else a number.
pub open spec fn fmt_value(s: Seq<char>, depth: nat, indent: nat, sort: bool) -> Option<(Seq<char>, Seq<char>)>
    decreases s.len(), 2nat,
{
    let t = skip_ws(s);
    if t.len() > s.len() || t.len() == 0 {
        None
    } else if t[0] == '{' {
        fmt_object(t, depth, indent, sort)
    } else if t[0] == '[' {
        fmt_array(t, depth, indent, sort)
    } else if t[0] == '"' {
        fmt_string(t)
    } else if t[0] == 't' || t[0] == 'f' {
        fmt_bool(t)
    } else if t[0] == 'n' {
        fmt_null(t)
    } else {
        fmt_number(t)
    }
}

/// The object at the start laid out at a nesting depth (members sorted by key when
/// asked), and what follows it. An object with nothing but white space inside is `{}`.
/// A missing closing brace is tolerated.
pub open spec fn fmt_object(t: Seq<char>, depth: nat, indent: nat, sort: bool) -> Option<(Seq<char>, Seq<char>)>
    decreases t.len(), 1nat,
{
    if t.len() == 0 || t[0] != '{' {
        None
    } else {
        let u = skip_ws(t.drop_first());
        if u.len() >= t.len() {
            None
        } else if u.len() > 0 && u[0] == '}' {
            Some((seq!['{', '}'], u.drop_first()))
        } else {
            match fmt_members(u, depth, indent, sort) {
                None => None,
                Some((es, v)) => {
                    let w = skip_ws(v);
                    let w2 = if w.len() > 0 && w[0] == '}' { w.drop_first() } else { w };
                    Some((object_text(if sort { sort_entries(es) } else { es }, depth, indent), w2))
                },
            }
        }
    }
}

/// The members of an object from the start: key, optional colon, value, and after a
/// comma the next member; nothing at the end of the input.
pub open spec fn fmt_members(s: Seq<char>, depth: nat, indent: nat, sort: bool) -> Option<(Seq<Entry>, Seq<char>)>
    decreases s.len(), 3nat,
{
    if s.len() == 0 {
        Some((Seq::empty(), s))
    } else {
        match fmt_string(skip_ws(s)) {
            None => None,
            Some((k, b)) => {
                let c = skip_ws(b);
                let d = if c.len() > 0 && c[0] == ':' { c.drop_first() } else { c };
                let e = skip_ws(d);
                if e.len() >= s.len() {
                    None
                } else {
                    match fmt_value(e, depth + 1, indent, sort) {
                        None => None,
                        Some((v, f)) => {
                            let g = skip_ws(f);
                            if g.len() > 0 && g[0] == ',' {
                                if g.len() > s.len() {
                                    None
                                } else {
                                    prepend(seq![(k, v)], fmt_members(g.drop_first(), depth, indent, sort))
                                }
                            } else {
                                Some((seq![(k, v)], g))
                            }
                        },
                    }
                }
            },
        }
    }
}

/// The array at the start laid out at a nesting depth, and what follows it. An array
/// with nothing but white space inside is `[]`. A missing closing bracket is tolerated.
pub open spec fn fmt_array(t: Seq<char>, depth: nat, indent: nat, sort: bool) -> Option<(Seq<char>, Seq<char>)>
    decreases t.len(), 1nat,
{
    if t.len() == 0 || t[0] != '[' {
        None
    } else {
        let u = skip_ws(t.drop_first());
        if u.len() >= t.len() {
            None
        } else if u.len() > 0 && u[0] == ']' {
            Some((seq!['[', ']'], u.drop_first()))
        } else {
            match fmt_items(u, depth, indent, sort) {
                None => None,
                Some((vs, v)) => {
                    let w = skip_ws(v);
                    let w2 = if w.len() > 0 && w[0] == ']' { w.drop_first() } else { w };
                    Some((array_text(vs, depth, indent), w2))
                },
            }
        }
    }
}

/// The items of an array from the start: a value, and after a comma the next item;
/// nothing at the end of the input.
pub open spec fn fmt_items(s: Seq<char>, depth: nat, indent: nat, sort: bool) -> Option<(Seq<Seq<char>>, Seq<char>)>
    decreases s.len(), 3nat,
{
    if s.len() == 0 {
        Some((Seq::empty(), s))
    } else {
        let a = skip_ws(s);
        if a.len() > s.len() {
            None
        } else {
            match fmt_value(a, depth + 1, indent, sort) {
                None => None,
                Some((v, f)) => {
                    let g = skip_ws(f);
                    if g.len() > 0 && g[0] == ',' {
                        if g.len() > s.len() {
                            None
                        } else {
                            prepend(seq![v], fmt_items(g.drop_first(), depth, indent, sort))
                        }
                    } else {
                        Some((seq![v], g))
                    }
                },
            }
        }
    }
}

/// The members held as strings, by their characters.
pub open spec fn entries_view(v: Seq<(String, String)>) -> Seq<Entry> {
    v.map_values(|p: (String, String)| (p.0@, p.1@))
}

/// Strings by their characters.
pub open spec fn strings_view(v: Seq<String>) -> Seq<Seq<char>> {
    v.map_values(|s: String| s@)
}

proof fn lemma_join_push(ls: Seq<Seq<char>>, x: Seq<char>)
    ensures
        join_lines(ls.push(x)) == if ls.len() == 0 { x } else { join_lines(ls) + seq![',', '\n'] + x },
{
    assert(ls.push(x).drop_last() =~= ls);
    if ls.len() == 0 {
        assert(ls.push(x) =~= seq![x]);
    }
}

fn object_out(entries: &Vec<(String, String)>, depth: usize, indent: usize) -> (r: String)
    requires
        depth < usize::MAX,
        (depth + 1) * indent <= usize::MAX,
    ensures
        r@ == object_text(entries_view(entries@), depth as nat, indent as nat),
{
    assert(depth * indent <= (depth + 1) * indent) by (nonlinear_arith);
    let inner: usize = (depth + 1) * indent;
    let ghost ev = entries_view(entries@);
    let mut out = String::new();
    out.push('{');
    out.push('\n');
    let mut i: usize = 0;
    while i < entries.len()
        invariant
            i <= entries@.len(),
            ev == entries_view(entries@),
            inner == (depth + 1) * indent,
            out@ == seq!['{', '\n'] + join_lines(member_lines(ev.take(i as int), inner as nat)),
        decreases entries.len() - i,
    {
        let ghost before = out@;
        let ghost line = repeat_spec(' ', inner as nat) + ev[i as int].0 + seq![':', ' '] + ev[i as int].1;
        if i > 0 {
            out.push(',');
            out.push('\n');
        }
        push_repeat(&mut out, ' ', inner);
        push_str(&mut out, entries[i].0.as_str());
        out.push(':');
        out.push(' ');
        push_str(&mut out, entries[i].1.as_str());
        proof {
            assert(member_lines(ev.take(i + 1), inner as nat) =~= member_lines(ev.take(i as int), inner as nat).push(line));
            lemma_join_push(member_lines(ev.take(i as int), inner as nat), line);
            assert(out@ =~= seq!['{', '\n'] + join_lines(member_lines(ev.take(i + 1), inner as nat)));
        }
        i = i + 1;
    }
    assert(ev.take(i as int) =~= ev);
    out.push('\n');
    push_repeat(&mut out, ' ', depth * indent);
    out.push('}');
    out
}

fn array_out(items: &Vec<String>, depth: usize, indent: usize) -> (r: String)
    requires
        depth < usize::MAX,
        (depth + 1) * indent <= usize::MAX,
    ensures
        r@ == array_text(strings_view(items@), depth as nat, indent as nat),
{
    assert(depth * indent <= (depth + 1) * indent) by (nonlinear_arith);
    let inner: usize = (depth + 1) * indent;
    let ghost iv = strings_view(items@);
    let mut out = String::new();
    out.push('[');
    out.push('\n');
    let mut i: usize = 0;
    while i < items.len()
        invariant
            i <= items@.len(),
            iv == strings_view(items@),
            inner == (depth + 1) * indent,
            out@ == seq!['[', '\n'] + join_lines(item_lines(iv.take(i as int), inner as nat)),
        decreases items.len() - i,
    {
        let ghost line = repeat_spec(' ', inner as nat) + iv[i as int];
        if i > 0 {
            out.push(',');
            out.push('\n');
        }
        push_repeat(&mut out, ' ', inner);
        push_str(&mut out, items[i].as_str());
        proof {
            assert(item_lines(iv.take(i + 1), inner as nat) =~= item_lines(iv.take(i as int), inner as nat).push(line));
            lemma_join_push(item_lines(iv.take(i as int), inner as nat), line);
            assert(out@ =~= seq!['[', '\n'] + join_lines(item_lines(iv.take(i + 1), inner as nat)));
        }
        i = i + 1;
    }
    assert(iv.take(i as int) =~= iv);
    out.push('\n');
    push_repeat(&mut out, ' ', depth * indent);
    out.push(']');
    out
}

/// Whether one key comes before or equals another (see `key_le`).
fn key_le_str(a: &str, b: &str) -> (r: bool)
    ensures
        r == key_le(a@, b@),
{
    let na = a.unicode_len();
    let nb = b.unicode_len();
    let mut i: usize = 0;
    assert(a@.skip(0) =~= a@ && b@.skip(0) =~= b@);
    while i < na && i < nb
        invariant
            na == a@.len(),
            nb == b@.len(),
            i <= na,
            i <= nb,
            key_le(a@, b@) == key_le(a@.skip(i as int), b@.skip(i as int)),
        decreases na - i,
    {
        let ca = a.get_char(i);
        let cb = b.get_char(i);
        assert(a@.skip(i as int)[0] == ca && b@.skip(i as int)[0] == cb);
        if (ca as u32) < (cb as u32) {
            return true;
        }
        if (ca as u32) > (cb as u32) {
            return false;
        }
        assert(a@.skip(i as int).drop_first() =~= a@.skip(i + 1));
        assert(b@.skip(i as int).drop_first() =~= b@.skip(i + 1));
        i = i + 1;
    }
    i == na
}

/// Place a member among members sorted by key, after those whose key is not greater.
fn insert_sorted(out: &mut Vec<(String, String)>, e: (String, String))
    ensures
        entries_view(final(out)@) == insert_entry(entries_view(old(out)@), (e.0@, e.1@)),
{
    let ghost ee = (e.0@, e.1@);
    let ghost target = insert_entry(entries_view(out@), ee);
    let mut tail: Vec<(String, String)> = Vec::new();
    while out.len() > 0 && !key_le_str(out[out.len() - 1].0.as_str(), e.0.as_str())
        invariant
            ee == (e.0@, e.1@),
            target == insert_entry(entries_view(out@), ee) + entries_view(tail@),
        decreases out@.len(),
    {
        let ghost ov = entries_view(out@);
        let x = out.pop().unwrap();
        proof {
            assert(ov.drop_last() =~= entries_view(out@));
            assert(ov.last() == (x.0@, x.1@));
        }
        let ghost tv = entries_view(tail@);
        let ghost xv = (x.0@, x.1@);
        tail.insert(0, x);
        assert(entries_view(tail@) =~= seq![xv] + tv);
        assert(insert_entry(ov, ee) == insert_entry(ov.drop_last(), ee).push(xv));
        assert(insert_entry(ov.drop_last(), ee).push(xv) + tv =~= insert_entry(ov.drop_last(), ee) + (seq![xv] + tv));
    }
    let ghost ov = entries_view(out@);
    let ghost tv = entries_view(tail@);
    proof {
        if ov.len() == 0 {
            assert(seq![ee] =~= ov.push(ee));
        }
    }
    out.push(e);
    assert(entries_view(out@) =~= ov.push(ee));
    out.append(&mut tail);
    assert(entries_view(out@) =~= ov.push(ee) + tv);
}

/// Members sorted by key, equal keys in their order.
fn sort_members(entries: &Vec<(String, String)>) -> (r: Vec<(String, String)>)
    ensures
        entries_view(r@) == sort_entries(entries_view(entries@)),
{
    let ghost ev = entries_view(entries@);
    let mut out: Vec<(String, String)> = Vec::new();
    let mut i: usize = 0;
    while i < entries.len()
        invariant
            i <= entries@.len(),
            ev == entries_view(entries@),
            entries_view(out@) == sort_entries(ev.take(i as int)),
        decreases entries.len() - i,
    {
        let e = (entries[i].0.clone(), entries[i].1.clone());
        insert_sorted(&mut out, e);
        assert(ev.take(i + 1).drop_last() =~= ev.take(i as int));
        i = i + 1;
    }
    assert(ev.take(i as int) =~= ev);
    out
}

/// The value at `pos` laid out at a nesting depth, moving `pos` past it.
fn format_value(chars: &Vec<char>, pos: &mut usize, depth: usize, indent: usize, sort: bool) -> (r: Option<String>)
    requires
        *old(pos) <= chars@.len(),
        depth <= *old(pos),
        (chars@.len() + 1) * indent <= usize::MAX,
    ensures
        *old(pos) <= *final(pos) <= chars@.len(),
        match r {
            Some(s) => *final(pos) > *old(pos)
                && fmt_value(rest(chars@, *old(pos) as int), depth as nat, indent as nat, sort) == Some((s@, rest(chars@, *final(pos) as int))),
            None => fmt_value(rest(chars@, *old(pos) as int), depth as nat, indent as nat, sort) is None,
        },
    decreases chars@.len() - *old(pos), 2nat,
{
    let ghost s0 = rest(chars@, *pos as int);
    *pos = skip_whitespace(chars, *pos);
    if *pos >= chars.len() {
        assert(rest(chars@, *pos as int) =~= Seq::<char>::empty());
        return None;
    }
    let c = chars[*pos];
    assert(rest(chars@, *pos as int)[0] == c);
    if c == '{' {
        format_object(chars, pos, depth, indent, sort)
    } else if c == '[' {
        format_array(chars, pos, depth, indent, sort)
    } else if c == '"' {
        format_string(chars, pos)
    } else if c == 't' || c == 'f' {
        format_bool(chars, pos)
    } else if c == 'n' {
        format_null(chars, pos)
    } else {
        format_number(chars, pos)
    }
}

/// The object at `pos` laid out at a nesting depth, moving `pos` past it.
fn format_object(chars: &Vec<char>, pos: &mut usize, depth: usize, indent: usize, sort: bool) -> (r: Option<String>)
    requires
        *old(pos) <= chars@.len(),
        depth <= *old(pos),
        (chars@.len() + 1) * indent <= usize::MAX,
    ensures
        *old(pos) <= *final(pos) <= chars@.len(),
        match r {
            Some(s) => *final(pos) > *old(pos)
                && fmt_object(rest(chars@, *old(pos) as int), depth as nat, indent as nat, sort) == Some((s@, rest(chars@, *final(pos) as int))),
            None => fmt_object(rest(chars@, *old(pos) as int), depth as nat, indent as nat, sort) is None,
        },
    decreases chars@.len() - *old(pos), 1nat,
{
    if *pos >= chars.len() || chars[*pos] != '{' {
        return None;
    }
    let ghost p0 = *pos;
    let ghost t = rest(chars@, p0 as int);
    assert(t.drop_first() =~= rest(chars@, p0 + 1));
    *pos = *pos + 1;
    *pos = skip_whitespace(chars, *pos);
    if *pos < chars.len() && chars[*pos] == '}' {
        assert(rest(chars@, *pos as int)[0] == '}');
        assert(rest(chars@, *pos as int).drop_first() =~= rest(chars@, *pos + 1));
        *pos = *pos + 1;
        let mut r = String::new();
        r.push('{');
        r.push('}');
        return Some(r);
    }
    proof {
        if *pos < chars@.len() {
            assert(rest(chars@, *pos as int)[0] == chars@[*pos as int]);
        }
    }
    let ghost m0 = *pos;
    let ghost d = depth as nat;
    let ghost ind = indent as nat;
    let mut entries: Vec<(String, String)> = Vec::new();
    loop
        invariant_except_break
            d == depth as nat,
            ind == indent as nat,
            p0 == *old(pos),
            rest(chars@, m0 as int) == skip_ws(rest(chars@, p0 as int).drop_first()),
            rest(chars@, p0 as int).len() > 0 && rest(chars@, p0 as int)[0] == '{',
            !(rest(chars@, m0 as int).len() > 0 && rest(chars@, m0 as int)[0] == '}'),
            p0 < m0 <= *pos <= chars@.len(),
            depth <= p0,
            (chars@.len() + 1) * indent <= usize::MAX,
            fmt_members(rest(chars@, m0 as int), d, ind, sort) == prepend(entries_view(entries@), fmt_members(rest(chars@, *pos as int), d, ind, sort)),
        ensures
            d == depth as nat,
            ind == indent as nat,
            p0 == *old(pos),
            rest(chars@, m0 as int) == skip_ws(rest(chars@, p0 as int).drop_first()),
            rest(chars@, p0 as int).len() > 0 && rest(chars@, p0 as int)[0] == '{',
            !(rest(chars@, m0 as int).len() > 0 && rest(chars@, m0 as int)[0] == '}'),
            p0 < m0 <= *pos <= chars@.len(),
            depth <= p0,
            (chars@.len() + 1) * indent <= usize::MAX,
            fmt_members(rest(chars@, m0 as int), d, ind, sort) == Some((entries_view(entries@), rest(chars@, *pos as int))),
        decreases chars@.len() - *pos,
    {
        if *pos >= chars.len() {
            assert(rest(chars@, *pos as int) =~= Seq::<char>::empty());
            assert(entries_view(entries@) + Seq::<Entry>::empty() =~= entries_view(entries@));
            break;
        }
        let ghost ph = *pos;
        let ghost sh = rest(chars@, ph as int);
        *pos = skip_whitespace(chars, *pos);
        let key = match format_string(chars, pos) {
            Some(k) => k,
            None => {
                proof {
                    assert(sh.len() > 0);
                    assert(fmt_string(skip_ws(sh)) is None);
                    assert(fmt_members(sh, d, ind, sort) is None);
                    assert(fmt_members(rest(chars@, m0 as int), d, ind, sort) is None);
                    assert(fmt_object(rest(chars@, p0 as int), d, ind, sort) is None);
                }
                return None;
            },
        };
        let ghost pk = *pos;
        assert(fmt_string(skip_ws(sh)) == Some((key@, rest(chars@, pk as int))));
        *pos = skip_whitespace(chars, *pos);
        let ghost pc = *pos;
        if *pos < chars.len() && chars[*pos] == ':' {
            assert(rest(chars@, *pos as int)[0] == ':');
            assert(rest(chars@, *pos as int).drop_first() =~= rest(chars@, *pos + 1));
            *pos = *pos + 1;
        } else {
            proof {
                if *pos < chars@.len() {
                    assert(rest(chars@, *pos as int)[0] == chars@[*pos as int]);
                }
            }
        }
        let ghost pd = *pos;
        assert(rest(chars@, pd as int) == (if rest(chars@, pc as int).len() > 0 && rest(chars@, pc as int)[0] == ':' {
            rest(chars@, pc as int).drop_first() } else { rest(chars@, pc as int) }));
        *pos = skip_whitespace(chars, *pos);
        let ghost pe = *pos;
        assert(rest(chars@, pe as int).len() < sh.len());
        assert(depth + 1 <= *pos);
        let value = match format_value(chars, pos, depth + 1, indent, sort) {
            Some(v) => v,
            None => {
                proof {
                    assert(fmt_value(rest(chars@, pe as int), d + 1, ind, sort) is None);
                    assert(fmt_members(sh, d, ind, sort) is None);
                    assert(fmt_members(rest(chars@, m0 as int), d, ind, sort) is None);
                    assert(fmt_object(rest(chars@, p0 as int), d, ind, sort) is None);
                }
                return None;
            },
        };
        let ghost pv = *pos;
        assert(fmt_value(rest(chars@, pe as int), d + 1, ind, sort) == Some((value@, rest(chars@, pv as int))));
        let ghost kv = (key@, value@);
        let ghost ev0 = entries_view(entries@);
        entries.push((key, value));
        assert(entries_view(entries@) =~= ev0.push(kv));
        *pos = skip_whitespace(chars, *pos);
        if *pos < chars.len() && chars[*pos] == ',' {
            assert(rest(chars@, *pos as int)[0] == ',');
            assert(rest(chars@, *pos as int).drop_first() =~= rest(chars@, *pos + 1));
            *pos = *pos + 1;
            proof {
                let more = fmt_members(rest(chars@, *pos as int), d, ind, sort);
                assert(prepend(ev0, prepend(seq![kv], more)) == prepend(ev0.push(kv), more)) by {
                    match more {
                        Some((x, tt)) => {
                            assert(ev0 + (seq![kv] + x) =~= ev0.push(kv) + x);
                        },
                        None => {},
                    }
                }
            }
        } else {
            proof {
                if *pos < chars@.len() {
                    assert(rest(chars@, *pos as int)[0] == chars@[*pos as int]);
                }
                assert(ev0 + seq![kv] =~= ev0.push(kv));
                assert(fmt_members(sh, d, ind, sort) == Some((seq![kv], rest(chars@, *pos as int))));
            }
            break;
        }
    }
    *pos = skip_whitespace(chars, *pos);
    let ghost pw = *pos;
    if *pos < chars.len() && chars[*pos] == '}' {
        assert(rest(chars@, *pos as int)[0] == '}');
        assert(rest(chars@, *pos as int).drop_first() =~= rest(chars@, *pos + 1));
        *pos = *pos + 1;
    } else {
        proof {
            if *pos < chars@.len() {
                assert(rest(chars@, *pos as int)[0] == chars@[*pos as int]);
            }
        }
    }
    proof {
        assert((depth + 1) * indent <= (chars@.len() + 1) * indent) by (nonlinear_arith)
            requires
                depth <= chars@.len(),
        ;
    }
    let out = if sort {
        let sorted = sort_members(&entries);
        object_out(&sorted, depth, indent)
    } else {
        object_out(&entries, depth, indent)
    };
    Some(out)
}

/// The array at `pos` laid out at a nesting depth, moving `pos` past it.
fn format_array(chars: &Vec<char>, pos: &mut usize, depth: usize, indent: usize, sort: bool) -> (r: Option<String>)
    requires
        *old(pos) <= chars@.len(),
        depth <= *old(pos),
        (chars@.len() + 1) * indent <= usize::MAX,
    ensures
        *old(pos) <= *final(pos) <= chars@.len(),
        match r {
            Some(s) => *final(pos) > *old(pos)
                && fmt_array(rest(chars@, *old(pos) as int), depth as nat, indent as nat, sort) == Some((s@, rest(chars@, *final(pos) as int))),
            None => fmt_array(rest(chars@, *old(pos) as int), depth as nat, indent as nat, sort) is None,
        },
    decreases chars@.len() - *old(pos), 1nat,
{
    if *pos >= chars.len() || chars[*pos] != '[' {
        return None;
    }
    let ghost p0 = *pos;
    let ghost t = rest(chars@, p0 as int);
    assert(t.drop_first() =~= rest(chars@, p0 + 1));
    *pos = *pos + 1;
    *pos = skip_whitespace(chars, *pos);
    if *pos < chars.len() && chars[*pos] == ']' {
        assert(rest(chars@, *pos as int)[0] == ']');
        assert(rest(chars@, *pos as int).drop_first() =~= rest(chars@, *pos + 1));
        *pos = *pos + 1;
        let mut r = String::new();
        r.push('[');
        r.push(']');
        return Some(r);
    }
    proof {
        if *pos < chars@.len() {
            assert(rest(chars@, *pos as int)[0] == chars@[*pos as int]);
        }
    }
    let ghost m0 = *pos;
    let ghost d = depth as nat;
    let ghost ind = indent as nat;
    let mut items: Vec<String> = Vec::new();
    loop
        invariant_except_break
            d == depth as nat,
            ind == indent as nat,
            p0 == *old(pos),
            rest(chars@, m0 as int) == skip_ws(rest(chars@, p0 as int).drop_first()),
            rest(chars@, p0 as int).len() > 0 && rest(chars@, p0 as int)[0] == '[',
            !(rest(chars@, m0 as int).len() > 0 && rest(chars@, m0 as int)[0] == ']'),
            p0 < m0 <= *pos <= chars@.len(),
            depth <= p0,
            (chars@.len() + 1) * indent <= usize::MAX,
            fmt_items(rest(chars@, m0 as int), d, ind, sort) == prepend(strings_view(items@), fmt_items(rest(chars@, *pos as int), d, ind, sort)),
        ensures
            d == depth as nat,
            ind == indent as nat,
            p0 == *old(pos),
            rest(chars@, m0 as int) == skip_ws(rest(chars@, p0 as int).drop_first()),
            rest(chars@, p0 as int).len() > 0 && rest(chars@, p0 as int)[0] == '[',
            !(rest(chars@, m0 as int).len() > 0 && rest(chars@, m0 as int)[0] == ']'),
            p0 < m0 <= *pos <= chars@.len(),
            depth <= p0,
            (chars@.len() + 1) * indent <= usize::MAX,
            fmt_items(rest(chars@, m0 as int), d, ind, sort) == Some((strings_view(items@), rest(chars@, *pos as int))),
        decreases chars@.len() - *pos,
    {
        if *pos >= chars.len() {
            assert(rest(chars@, *pos as int) =~= Seq::<char>::empty());
            assert(strings_view(items@) + Seq::<Seq<char>>::empty() =~= strings_view(items@));
            break;
        }
        let ghost ph = *pos;
        let ghost sh = rest(chars@, ph as int);
        *pos = skip_whitespace(chars, *pos);
        let ghost pa = *pos;
        assert(depth + 1 <= *pos);
        let value = match format_value(chars, pos, depth + 1, indent, sort) {
            Some(v) => v,
            None => {
                proof {
                    assert(fmt_value(rest(chars@, pa as int), d + 1, ind, sort) is None);
                    assert(fmt_items(sh, d, ind, sort) is None);
                    assert(fmt_items(rest(chars@, m0 as int), d, ind, sort) is None);
                    assert(fmt_array(rest(chars@, p0 as int), d, ind, sort) is None);
                }
                return None;
            },
        };
        let ghost pv = *pos;
        assert(fmt_value(rest(chars@, pa as int), d + 1, ind, sort) == Some((value@, rest(chars@, pv as int))));
        let ghost vv = value@;
        let ghost iv0 = strings_view(items@);
        items.push(value);
        assert(strings_view(items@) =~= iv0.push(vv));
        *pos = skip_whitespace(chars, *pos);
        if *pos < chars.len() && chars[*pos] == ',' {
            assert(rest(chars@, *pos as int)[0] == ',');
            assert(rest(chars@, *pos as int).drop_first() =~= rest(chars@, *pos + 1));
            *pos = *pos + 1;
            proof {
                let more = fmt_items(rest(chars@, *pos as int), d, ind, sort);
                assert(prepend(iv0, prepend(seq![vv], more)) == prepend(iv0.push(vv), more)) by {
                    match more {
                        Some((x, tt)) => {
                            assert(iv0 + (seq![vv] + x) =~= iv0.push(vv) + x);
                        },
                        None => {},
                    }
                }
            }
        } else {
            proof {
                if *pos < chars@.len() {
                    assert(rest(chars@, *pos as int)[0] == chars@[*pos as int]);
                }
                assert(iv0 + seq![vv] =~= iv0.push(vv));
                assert(fmt_items(sh, d, ind, sort) == Some((seq![vv], rest(chars@, *pos as int))));
            }
            break;
        }
    }
    *pos = skip_whitespace(chars, *pos);
    if *pos < chars.len() && chars[*pos] == ']' {
        assert(rest(chars@, *pos as int)[0] == ']');
        assert(rest(chars@, *pos as int).drop_first() =~= rest(chars@, *pos + 1));
        *pos = *pos + 1;
    } else {
        proof {
            if *pos < chars@.len() {
                assert(rest(chars@, *pos as int)[0] == chars@[*pos as int]);
            }
        }
    }
    proof {
        assert((depth + 1) * indent <= (chars@.len() + 1) * indent) by (nonlinear_arith)
            requires
                depth <= chars@.len(),
        ;
    }
    Some(array_out(&items, depth, indent))
}

/// JSON text re-laid out: the value at the start of the trimmed text laid out at depth
/// zero (what follows it is dropped); the text as given when no value can be read.
pub open spec fn json_layout(input: Seq<char>, indent: nat, sort: bool) -> Seq<char> {
    match fmt_value(trim_spec(input), 0, indent, sort) {
        Some((s, _)) => s,
        None => input,
    }
}

/// Lay out JSON text with `indent` spaces per nesting level, object members sorted by
/// key when asked; the text as given when no value can be read.
pub fn format_json(input: &str, indent: usize, sort_keys: bool) -> (r: String)
    requires
        (input@.len() + 1) * indent <= usize::MAX,
    ensures
        r@ == json_layout(input@, indent as nat, sort_keys),
{
    let all = crate::strs::str_chars(input);
    let chars = crate::strs::trim_chars(all.as_slice());
    proof {
        assert((chars@.len() + 1) * indent <= (input@.len() + 1) * indent) by (nonlinear_arith)
            requires
                chars@.len() <= input@.len(),
        ;
        assert(rest(chars@, 0) =~= chars@);
    }
    let mut pos: usize = 0;
    match format_value(&chars, &mut pos, 0, indent, sort_keys) {
        Some(s) => s,
        None => crate::strs::owned(input),
    }
}

/// JSON laid out as text, highlighted or not.
pub struct Json {
    text: Text,
}

impl View for Json {
    type V = TextModel;

    /// The laid-out text.
    closed spec fn view(&self) -> TextModel {
        self.text@
    }
}

/// The text of JSON laid out: plain, with the JSON highlighter's styles when asked and
/// its pattern compiles.
pub open spec fn json_text_spec(plain: TextModel, highlight: bool) -> TextModel {
    if highlight && regex_compiles(json_pattern_spec()) {
        apply_hits(plain, named_hits(seq![json_pattern_spec()], plain.plain), "json."@, crate::theme::default_entries(), plain.plain)
    } else {
        plain
    }
}

impl Json {
    /// JSON text laid out with `indent` spaces per level (members sorted by key when
    /// asked), highlighted when asked.
    pub fn new(data: &str, indent: usize, highlight: bool, sort_keys: bool) -> (r: Self)
        requires
            (data@.len() + 1) * indent <= usize::MAX,
        ensures
            r@.plain == json_layout(data@, indent as nat, sort_keys),
            r@ == json_text_spec(plain_model(json_layout(data@, indent as nat, sort_keys), None), highlight),
    {
        let formatted = format_json(data, indent, sort_keys);
        let mut text = Text::plain(formatted.as_str());
        let ghost plain = text@;
        if highlight {
            let p = json_pattern();
            if pattern_compiles(p.as_str()) {
                let hl = json_highlighter();
                hl.highlight(&mut text);
                proof {
                    crate::highlighter::lemma_apply_hits_plain(plain, named_hits(seq![json_pattern_spec()], plain.plain), "json."@, crate::theme::default_entries(), plain.plain);
                }
            }
        }
        assert(text@ == json_text_spec(plain, highlight));
        Json { text }
    }
}

impl Renderable for Json {
    open spec fn rendered(&self, o: crate::console::OptionsModel) -> Seq<crate::segment::SegView> {
        render_text_spec(self@, o)
    }

    open spec fn measured(&self, o: crate::console::OptionsModel) -> Measurement {
        measure_text(self@.plain)
    }

    fn render(&self, console: &Console, options: &ConsoleOptions) -> (r: Vec<Segment>)
    {
        self.text.render(console, options)
    }

    fn measure(&self, console: &Console, options: &ConsoleOptions) -> (r: Measurement)
    {
        self.text.measure(console, options)
    }
}


/// An ASCII digit.
pub open spec fn is_digit(c: char) -> bool {
    '0' <= c && c <= '9'
}

/// A number is read as a value whether or not it has a minus sign: a value that starts
/// with a digit is read as a token that starts with that digit, and a minus sign before
/// a digit is read as part of the number, which is then the number without the sign,
/// signed, with the same text following it.
pub proof fn law_signed_numbers(t: Seq<char>, depth: nat, indent: nat, sort: bool)
    ensures
        t.len() >= 1 && is_digit(t[0]) ==> (fmt_value(t, depth, indent, sort) matches Some((tok, _r))
            && tok.len() >= 1 && tok[0] == t[0]),
        t.len() >= 2 && t[0] == '-' && is_digit(t[1]) ==> ({
            let signed = fmt_value(t, depth, indent, sort);
            let unsigned = fmt_value(t.drop_first(), depth, indent, sort);
            signed matches Some(x) && unsigned matches Some(y) && x == (seq!['-'] + y.0, y.1)
        }),
{
    if t.len() >= 1 && (is_digit(t[0]) || t[0] == '-') {
        assert(skip_ws(t) == t);
        lemma_number_len(t);
        if t.len() >= 2 && t[0] == '-' && is_digit(t[1]) {
            let d = t.drop_first();
            assert(skip_ws(d) == d);
            lemma_number_len(d);
            let n = number_len(t);
            assert(n == 1 + number_len(d));
            assert(t.take(n as int) =~= seq!['-'] + d.take(n - 1));
            assert(t.skip(n as int) =~= d.skip(n - 1));
        }
    }
}

/// The literals are read as they stand: a value that starts with `true`, `false` or
/// `null` is that word, followed by the rest of the text.
pub proof fn law_literals(t: Seq<char>, depth: nat, indent: nat, sort: bool)
    ensures
        t.len() >= 4 && t.take(4) == seq!['t', 'r', 'u', 'e'] ==> fmt_value(t, depth, indent, sort)
            == Some((seq!['t', 'r', 'u', 'e'], t.skip(4))),
        t.len() >= 5 && t.take(5) == seq!['f', 'a', 'l', 's', 'e'] ==> fmt_value(t, depth, indent, sort)
            == Some((seq!['f', 'a', 'l', 's', 'e'], t.skip(5))),
        t.len() >= 4 && t.take(4) == seq!['n', 'u', 'l', 'l'] ==> fmt_value(t, depth, indent, sort)
            == Some((seq!['n', 'u', 'l', 'l'], t.skip(4))),
{
    reveal_strlit("true");
    reveal_strlit("false");
    reveal_strlit("null");
    assert("true"@ =~= seq!['t', 'r', 'u', 'e']);
    assert("false"@ =~= seq!['f', 'a', 'l', 's', 'e']);
    assert("null"@ =~= seq!['n', 'u', 'l', 'l']);
    if t.len() >= 4 && t.take(4) == seq!['t', 'r', 'u', 'e'] {
        assert(t[0] == t.take(4)[0]);
        assert(t[0] == 't');
        assert(skip_ws(t) == t);
        assert(fmt_bool(t) == Some((seq!['t', 'r', 'u', 'e'], t.skip(4))));
    }
    if t.len() >= 4 && t.take(4) == seq!['n', 'u', 'l', 'l'] {
        assert(t[0] == t.take(4)[0]);
        assert(t[0] == 'n');
        assert(skip_ws(t) == t);
    }
    if t.len() >= 5 && t.take(5) == seq!['f', 'a', 'l', 's', 'e'] {
        assert(t[0] == t.take(5)[0]);
        assert(skip_ws(t) == t);
        assert(t.take(4) != seq!['t', 'r', 'u', 'e']) by {
            assert(t.take(4)[0] == 'f');
        }
    }
}
} // verus!
