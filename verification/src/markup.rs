//! Markup: BBCode-like markup such as `[bold red]text[/]`, links `[link=url]..[/link]`
//! and metadata `[@name=value]..[/@name]`; `\[` stands for a literal bracket.
use vstd::prelude::*;
use crate::color::SimpleColor;
use crate::error::ParseError;
use crate::style::{Style, null_style, parse_style_spec};
use crate::text::{MetaMap, MetaValue, Span, StyleMeta, Text};
use crate::strs::{unicode_lowercase, trim_spec, trim_chars, to_lowercase, chars_eq, owned, push_str, push_chars, push_repeat, repeat_spec, str_chars, string_from_chars, decimal_spec,
    usize_to_string};

verus! {

broadcast use vstd::string::group_string_axioms;

/// A parsed markup tag: a name and optional parameters after `=`.
#[derive(Debug, Clone, PartialEq, Eq)]
pub struct Tag {
    /// The tag name (e.g. `bold`, `link`, `@click`, `/bold`).
    pub name: String,
    /// The parameters after `=`.
    pub parameters: Option<String>,
}

/// A tag as values: name and parameters.
pub type TagV = (Seq<char>, Option<Seq<char>>);

/// The value of a tag.
pub open spec fn tag_view(t: Tag) -> TagV {
    (t.name@, match t.parameters { Some(p) => Some(p@), None => None })
}

/// The markup of a tag: `[name]` or `[name=parameters]`.
pub open spec fn tag_markup(t: TagV) -> Seq<char> {
    match t.1 {
        Some(p) => seq!['['] + t.0 + seq!['='] + p + seq![']'],
        None => seq!['['] + t.0 + seq![']'],
    }
}

/// The text of a tag: its name, and its parameters after a space.
pub open spec fn tag_text(t: TagV) -> Seq<char> {
    match t.1 {
        Some(p) => t.0 + seq![' '] + p,
        None => t.0,
    }
}

/// A copy of an optional string.
pub fn copy_opt(s: &Option<String>) -> (r: Option<String>)
    ensures
        match (r, *s) {
            (Some(a), Some(b)) => a@ == b@,
            (None, None) => true,
            _ => false,
        },
{
    match s {
        Some(x) => Some(x.clone()),
        None => None,
    }
}

impl Tag {
    /// A tag of a name and optional parameters.
    pub fn new(name: &str, parameters: Option<String>) -> (r: Self)
        ensures
            r.name@ == name@,
            r.parameters == parameters,
    {
        Tag { name: owned(name), parameters }
    }

    /// The markup of the tag: `[name]` or `[name=parameters]`.
    pub fn markup(&self) -> (r: String)
        ensures
            r@ == tag_markup(tag_view(*self)),
    {
        let mut s = String::new();
        s.push('[');
        push_str(&mut s, self.name.as_str());
        if let Some(p) = &self.parameters {
            s.push('=');
            push_str(&mut s, p.as_str());
        }
        s.push(']');
        assert(s@ =~= tag_markup(tag_view(*self)));
        s
    }

    /// The text of the tag: its name, then its parameters after a space.
    pub fn to_string(&self) -> (r: String)
        ensures
            r@ == tag_text(tag_view(*self)),
    {
        let mut s = self.name.clone();
        if let Some(p) = &self.parameters {
            s.push(' ');
            push_str(&mut s, p.as_str());
        }
        assert(s@ =~= tag_text(tag_view(*self)));
        s
    }

    /// A copy of the tag.
    pub fn copy(&self) -> (r: Self)
        ensures
            tag_view(r) == tag_view(*self),
    {
        Tag { name: self.name.clone(), parameters: copy_opt(&self.parameters) }
    }
}

/// A token of markup.
#[derive(Debug, Clone, PartialEq, Eq)]
pub enum Token {
    /// Plain text.
    Text(String),
    /// A tag.
    Tag(Tag),
}

/// Whether a character can start a tag's name.
pub open spec fn tag_first(c: char) -> bool {
    ('a' <= c && c <= 'z') || c == '#' || c == '/' || c == '@'
}

/// The first position from `p` on that does not hold a backslash.
pub open spec fn bs_end(s: Seq<char>, p: int) -> int
    decreases s.len() - p,
{
    if 0 <= p < s.len() && s[p] == '\\' { bs_end(s, p + 1) } else { p }
}

/// The closing bracket of a tag whose name starts before `j`: the first `]` from `j`
/// on, unless a `[` comes first.
pub open spec fn find_close(s: Seq<char>, j: int) -> Option<int>
    decreases s.len() - j,
{
    if j < 0 || j >= s.len() {
        None
    } else if s[j] == ']' {
        Some(j)
    } else if s[j] == '[' {
        None
    } else {
        find_close(s, j + 1)
    }
}

/// A tag starting at `p` (after any backslashes): the position of its `[` and the
/// position after its `]`.
pub open spec fn match_at(s: Seq<char>, p: int) -> Option<(int, int)> {
    let q = bs_end(s, p);
    if 0 <= p && q + 1 < s.len() && s[q] == '[' && tag_first(s[q + 1]) {
        match find_close(s, q + 2) {
            Some(j) => Some((q, j + 1)),
            None => None,
        }
    } else {
        None
    }
}

/// The first tag from `p` on: where it starts (its backslashes included), its `[`, and
/// the position after its `]`.
pub open spec fn next_match(s: Seq<char>, p: int) -> Option<(int, int, int)>
    decreases s.len() - p,
{
    if p < 0 || p >= s.len() {
        None
    } else {
        match match_at(s, p) {
            Some((q, e)) => Some((p, q, e)),
            None => next_match(s, p + 1),
        }
    }
}

pub proof fn lemma_bs_end(s: Seq<char>, p: int)
    requires
        0 <= p <= s.len(),
    ensures
        p <= bs_end(s, p) <= s.len(),
        forall|k: int| p <= k < bs_end(s, p) ==> s[k] == '\\',
    decreases s.len() - p,
{
    if p < s.len() && s[p] == '\\' {
        lemma_bs_end(s, p + 1);
    }
}

pub proof fn lemma_find_close(s: Seq<char>, j: int)
    requires
        0 <= j,
    ensures
        find_close(s, j) matches Some(k) ==> j <= k < s.len() && s[k] == ']',
    decreases s.len() - j,
{
    if j < s.len() && s[j] != ']' && s[j] != '[' {
        lemma_find_close(s, j + 1);
    }
}

pub proof fn lemma_next_match(s: Seq<char>, p: int)
    requires
        0 <= p,
    ensures
        next_match(s, p) matches Some((a, q, e)) ==> p <= a <= q && q + 3 <= e <= s.len()
            && s[q] == '[' && bs_end(s, a) == q,
    decreases s.len() - p,
{
    if p < s.len() {
        match match_at(s, p) {
            Some((q, e)) => {
                lemma_bs_end(s, p);
                lemma_find_close(s, bs_end(s, p) + 2);
            },
            None => {
                lemma_next_match(s, p + 1);
            },
        }
    }
}

/// Bytes that the UTF-8 encoding of a character takes.
pub open spec fn utf8_len(c: char) -> nat {
    if (c as u32) < 0x80 { 1 } else if (c as u32) < 0x800 { 2 } else if (c as u32) < 0x10000 { 3 } else { 4 }
}

/// Bytes that the UTF-8 encoding of characters takes.
pub open spec fn utf8_width(s: Seq<char>) -> nat
    decreases s.len(),
{
    if s.len() == 0 { 0 } else { utf8_width(s.drop_last()) + utf8_len(s.last()) }
}

/// The byte offset of character `i`.
pub open spec fn byte_pos(s: Seq<char>, i: int) -> nat {
    utf8_width(s.take(i))
}

/// A tag's text split at its first `=` into name and parameters.
pub open spec fn split_tag(t: Seq<char>) -> TagV {
    match first_eq(t, 0) {
        Some(k) => (t.take(k), Some(t.skip(k + 1))),
        None => (t, None),
    }
}

/// The first `=` from `i` on.
pub open spec fn first_eq(t: Seq<char>, i: int) -> Option<int>
    decreases t.len() - i,
{
    if i < 0 || i >= t.len() {
        None
    } else if t[i] == '=' {
        Some(i)
    } else {
        first_eq(t, i + 1)
    }
}

/// A token as values: its byte position, text, or tag.
pub type TokenV = (nat, Option<Seq<char>>, Option<TagV>);

/// The tokens of markup from position `pos` on. Text before a tag is a token at the
/// tag's position; backslashes before a tag come in pairs as literal backslashes, and
/// an odd one makes the tag literal text; trailing text is a token at its own start.
pub open spec fn tokens_from(s: Seq<char>, pos: int) -> Seq<TokenV>
    decreases s.len() - pos,
{
    if pos < 0 {
        Seq::empty()
    } else {
        match next_match(s, pos) {
            None => if pos < s.len() {
                seq![(byte_pos(s, pos), Some(s.subrange(pos, s.len() as int)), None::<TagV>)]
            } else {
                Seq::empty()
            },
            Some((p, q, e)) => {
                proof {
                    lemma_next_match(s, pos);
                }
                let pre = if p > pos {
                    seq![(byte_pos(s, p), Some(s.subrange(pos, p)), None::<TagV>)]
                } else {
                    Seq::empty()
                };
                let esc = q - p;
                let bsl = esc / 2;
                let bs_tok = if bsl > 0 {
                    seq![(byte_pos(s, p), Some(repeat_spec('\\', bsl as nat)), None::<TagV>)]
                } else {
                    Seq::empty()
                };
                let ts = p + 2 * bsl;
                let tok = if esc % 2 == 1 {
                    (byte_pos(s, ts), Some(s.subrange(ts + 1, e)), None::<TagV>)
                } else {
                    (byte_pos(s, ts), None::<Seq<char>>, Some(split_tag(s.subrange(q + 1, e - 1))))
                };
                pre + bs_tok + seq![tok] + tokens_from(s, e)
            },
        }
    }
}

/// The tokens of markup.
pub open spec fn parse_spec(s: Seq<char>) -> Seq<TokenV> {
    tokens_from(s, 0)
}

/// The value of a parsed token.
pub open spec fn token_view(t: (usize, Option<String>, Option<Tag>)) -> TokenV {
    (t.0 as nat, match t.1 { Some(x) => Some(x@), None => None }, match t.2 { Some(g) => Some(tag_view(g)), None => None })
}

/// The values of parsed tokens.
pub open spec fn tokens_view(v: Seq<(usize, Option<String>, Option<Tag>)>) -> Seq<TokenV> {
    v.map_values(|t: (usize, Option<String>, Option<Tag>)| token_view(t))
}

fn bs_end_exec(s: &Vec<char>, p: usize) -> (r: usize)
    requires
        p <= s.len(),
    ensures
        r as int == bs_end(s@, p as int),
        p <= r <= s.len(),
{
    let mut q = p;
    proof {
        lemma_bs_end(s@, p as int);
    }
    while q < s.len() && s[q] == '\\'
        invariant
            p <= q <= s.len(),
            bs_end(s@, q as int) == bs_end(s@, p as int),
        decreases s.len() - q,
    {
        q = q + 1;
    }
    q
}

fn find_close_exec(s: &Vec<char>, j: usize) -> (r: Option<usize>)
    ensures
        match (r, find_close(s@, j as int)) {
            (Some(a), Some(b)) => a as int == b,
            (None, None) => true,
            _ => false,
        },
{
    let mut k = j;
    while k < s.len()
        invariant
            j <= k,
            find_close(s@, k as int) == find_close(s@, j as int),
        decreases s.len() - k,
    {
        if s[k] == ']' {
            return Some(k);
        }
        if s[k] == '[' {
            return None;
        }
        k = k + 1;
    }
    None
}

fn is_tag_first(c: char) -> (r: bool)
    ensures
        r == tag_first(c),
{
    ('a' <= c && c <= 'z') || c == '#' || c == '/' || c == '@'
}

fn match_at_exec(s: &Vec<char>, p: usize) -> (r: Option<(usize, usize)>)
    requires
        p <= s.len(),
    ensures
        match (r, match_at(s@, p as int)) {
            (Some(a), Some(b)) => a.0 as int == b.0 && a.1 as int == b.1,
            (None, None) => true,
            _ => false,
        },
{
    let q = bs_end_exec(s, p);
    if q < s.len() && q + 1 < s.len() && s[q] == '[' && is_tag_first(s[q + 1]) {
        match find_close_exec(s, q + 2) {
            Some(j) => {
                proof {
                    lemma_find_close(s@, q + 2);
                }
                Some((q, j + 1))
            },
            None => None,
        }
    } else {
        None
    }
}

fn next_match_exec(s: &Vec<char>, p: usize) -> (r: Option<(usize, usize, usize)>)
    requires
        p <= s.len(),
    ensures
        match (r, next_match(s@, p as int)) {
            (Some(a), Some(b)) => a.0 as int == b.0 && a.1 as int == b.1 && a.2 as int == b.2,
            (None, None) => true,
            _ => false,
        },
{
    let mut k = p;
    while k < s.len()
        invariant
            p <= k <= s.len(),
            next_match(s@, k as int) == next_match(s@, p as int),
        decreases s.len() - k,
    {
        match match_at_exec(s, k) {
            Some((q, e)) => {
                return Some((k, q, e));
            },
            None => {},
        }
        k = k + 1;
    }
    None
}

pub(crate) fn char_utf8_len(c: char) -> (r: usize)
    ensures
        r == utf8_len(c),
{
    if (c as u32) < 0x80 {
        1
    } else if (c as u32) < 0x800 {
        2
    } else if (c as u32) < 0x10000 {
        3
    } else {
        4
    }
}

fn split_tag_exec(t: &Vec<char>) -> (r: Tag)
    ensures
        tag_view(r) == split_tag(t@),
{
    let mut k: usize = 0;
    while k < t.len()
        invariant
            k <= t.len(),
            first_eq(t@, k as int) == first_eq(t@, 0),
        decreases t.len() - k,
    {
        if t[k] == '=' {
            let name = crate::strs::sub_string(t.as_slice(), 0, k);
            let params = crate::strs::sub_string(t.as_slice(), k + 1, t.len());
            assert(name@ =~= t@.take(k as int));
            assert(params@ =~= t@.skip(k + 1));
            return Tag { name, parameters: Some(params) };
        }
        k = k + 1;
    }
    Tag { name: string_from_chars(t.as_slice()), parameters: None }
}

/// Split markup into tokens: `(position, Some(text), None)` for text (at the position
/// where it ends, or where trailing text starts) and `(position, None, Some(tag))` for
/// tags; positions are byte offsets.
pub fn parse(markup: &str) -> (r: Vec<(usize, Option<String>, Option<Tag>)>)
    requires
        utf8_width(markup@) <= usize::MAX,
    ensures
        tokens_view(r@) == parse_spec(markup@),
{
    let s = str_chars(markup);
    let n = s.len();
    let mut out: Vec<(usize, Option<String>, Option<Tag>)> = Vec::new();
    let mut pos: usize = 0;
    let mut pos_bytes: usize = 0;
    proof {
        assert(s@.take(0) =~= Seq::<char>::empty());
    }
    loop
        invariant_except_break
            s@ == markup@,
            n == s.len(),
            pos <= n,
            utf8_width(s@) <= usize::MAX,
            pos_bytes == byte_pos(s@, pos as int),
            tokens_view(out@) + tokens_from(s@, pos as int) == parse_spec(s@),
        ensures
            tokens_view(out@) == parse_spec(markup@),
        decreases n - pos,
    {
        let ghost before = tokens_view(out@);
        match next_match_exec(&s, pos) {
            None => {
                if pos < n {
                    let t = crate::strs::sub_string(s.as_slice(), pos, n);
                    out.push((pos_bytes, Some(t), None));
                    proof {
                        assert(t@ =~= s@.subrange(pos as int, n as int));
                        assert(tokens_view(out@) =~= before + tokens_from(s@, pos as int));
                    }
                } else {
                    assert(tokens_view(out@) =~= before + tokens_from(s@, pos as int));
                }
                assert(tokens_view(out@) == parse_spec(markup@));
                break;
            },
            Some((p, q, e)) => {
                proof {
                    lemma_next_match(s@, pos as int);
                }
                // byte offsets of `p` and of the tag start
                let mut pb = pos_bytes;
                let mut k = pos;
                while k < p
                    invariant
                        pos <= k <= p <= n,
                        n == s.len(),
                        utf8_width(s@) <= usize::MAX,
                        pb == byte_pos(s@, k as int),
                    decreases p - k,
                {
                    proof {
                        assert(s@.take(k + 1).drop_last() =~= s@.take(k as int));
                        lemma_utf8_prefix(s@, k + 1);
                    }
                    pb = pb + char_utf8_len(s[k]);
                    k = k + 1;
                }
                if p > pos {
                    let t = crate::strs::sub_string(s.as_slice(), pos, p);
                    out.push((pb, Some(t), None));
                }
                let ghost b1 = tokens_view(out@);
                let esc = q - p;
                let bsl = esc / 2;
                if bsl > 0 {
                    let mut t = String::new();
                    push_repeat(&mut t, '\\', bsl);
                    out.push((pb, Some(t), None));
                }
                let ts = p + 2 * bsl;
                proof {
                    lemma_bs_end(s@, p as int);
                    lemma_byte_pos_backslashes(s@, p as int, ts as int);
                    lemma_utf8_prefix(s@, ts as int);
                }
                let tsb = pb + 2 * bsl;
                if esc % 2 == 1 {
                    let t = crate::strs::sub_string(s.as_slice(), ts + 1, e);
                    out.push((tsb, Some(t), None));
                } else {
                    let inner = crate::strs::sub_chars(s.as_slice(), q + 1, e - 1);
                    let tag = split_tag_exec(&inner);
                    out.push((tsb, None, Some(tag)));
                }
                // advance the byte position to `e`
                let mut eb = pb;
                let mut k2 = p;
                while k2 < e
                    invariant
                        p <= k2 <= e <= n,
                        n == s.len(),
                        utf8_width(s@) <= usize::MAX,
                        eb == byte_pos(s@, k2 as int),
                    decreases e - k2,
                {
                    proof {
                        assert(s@.take(k2 + 1).drop_last() =~= s@.take(k2 as int));
                        lemma_utf8_prefix(s@, k2 + 1);
                    }
                    eb = eb + char_utf8_len(s[k2]);
                    k2 = k2 + 1;
                }
                proof {
                    let rest = tokens_from(s@, e as int);
                    assert(tokens_view(out@) + rest =~= before + tokens_from(s@, pos as int));
                }
                pos = e;
                pos_bytes = eb;
            },
        }
    }
    out
}

proof fn lemma_utf8_prefix(s: Seq<char>, i: int)
    requires
        0 <= i <= s.len(),
    ensures
        utf8_width(s.take(i)) <= utf8_width(s),
    decreases s.len() - i,
{
    if i < s.len() {
        lemma_utf8_prefix(s, i + 1);
        assert(s.take(i + 1).drop_last() =~= s.take(i));
    } else {
        assert(s.take(i) =~= s);
    }
}

proof fn lemma_byte_pos_backslashes(s: Seq<char>, p: int, t: int)
    requires
        0 <= p <= t <= s.len(),
        forall|k: int| p <= k < t ==> s[k] == '\\',
    ensures
        byte_pos(s, t) == byte_pos(s, p) + (t - p),
    decreases t - p,
{
    if t > p {
        lemma_byte_pos_backslashes(s, p, t - 1);
        assert(s.take(t).drop_last() =~= s.take(t - 1));
        assert(s.take(t).last() == s[t - 1]);
    }
}

/// Link or metadata as values: the link target, and named metadata (a value `None`
/// standing for no value).
pub type MetaV = (Option<Seq<char>>, Option<Seq<(Seq<char>, Option<Seq<char>>)>>);

/// A span as values: start, end, style, and link or metadata.
pub type SpanM = (nat, nat, Style, Option<MetaV>);

/// The value of a metadata value.
pub open spec fn meta_value_v(v: MetaValue) -> Option<Seq<char>> {
    match v {
        MetaValue::Null => None,
        MetaValue::Str(x) => Some(x@),
    }
}

/// The value of link or metadata.
pub open spec fn meta_v(m: StyleMeta) -> MetaV {
    (
        match m.link { Some(l) => Some(l@), None => None },
        match m.meta {
            Some(mm) => Some(mm.entries@.map_values(|e: (String, MetaValue)| (e.0@, meta_value_v(e.1)))),
            None => None,
        },
    )
}

/// The value of a span.
pub open spec fn span_m(sp: Span) -> SpanM {
    (sp.start as nat, sp.end as nat, sp.style, match sp.meta { Some(m) => Some(meta_v(m)), None => None })
}

/// The values of spans.
pub open spec fn spans_m(v: Seq<Span>) -> Seq<SpanM> {
    v.map_values(|sp: Span| span_m(sp))
}

/// A style name as compared: trimmed and in lower case.
pub open spec fn normalize(name: Seq<char>) -> Seq<char> {
    unicode_lowercase(trim_spec(name))
}

/// The style of a link: underlined cyan.
pub open spec fn link_style() -> Style {
    Style { underline: Some(true), color: Some(SimpleColor::Standard(6)), ..null_style() }
}

/// The value of a metadata tag's parameters: none when missing or blank, else trimmed.
pub open spec fn meta_param(p: Option<Seq<char>>) -> Option<Seq<char>> {
    match p {
        None => None,
        Some(x) => if trim_spec(x).len() == 0 { None } else { Some(trim_spec(x)) },
    }
}

/// The span that a closed tag makes over `start..end`: metadata for `@` tags, an
/// underlined cyan link for `link`, else the style that the tag's text parses to
/// (none when it does not parse or sets nothing).
pub open spec fn span_for(tag: TagV, start: nat, end: nat) -> Seq<SpanM> {
    if tag.0.len() > 0 && tag.0[0] == '@' {
        seq![(start, end, null_style(), Some((None::<Seq<char>>, Some(seq![(tag.0, meta_param(tag.1))]))))]
    } else if tag.0 == "link"@ {
        seq![(start, end, link_style(), Some((tag.1, None::<Seq<(Seq<char>, Option<Seq<char>>)>>)))]
    } else {
        match parse_style_spec(tag_text(tag)) {
            Some(st) => if st != null_style() { seq![(start, end, st, None::<MetaV>)] } else { Seq::empty() },
            None => Seq::empty(),
        }
    }
}

/// Text with each `\[` replaced by `[`.
pub open spec fn unescape(s: Seq<char>) -> Seq<char>
    decreases s.len(),
{
    if s.len() == 0 {
        Seq::empty()
    } else if s.len() >= 2 && s[0] == '\\' && s[1] == '[' {
        seq!['['] + unescape(s.skip(2))
    } else {
        seq![s[0]] + unescape(s.skip(1))
    }
}

/// The last open tag whose name matches `name`.
pub open spec fn find_open(stack: Seq<(nat, TagV)>, name: Seq<char>) -> Option<int>
    decreases stack.len(),
{
    if stack.len() == 0 {
        None
    } else if normalize(stack.last().1.0) == name {
        Some(stack.len() - 1)
    } else {
        find_open(stack.drop_last(), name)
    }
}

/// The error message of a closing tag that matches no open tag.
pub open spec fn unmatched_msg(tag: TagV, pos: nat) -> Seq<char> {
    "closing tag '"@ + tag_markup(tag) + "' at position "@ + decimal_spec(pos) + " doesn't match any open tag"@
}

/// The error message of `[/]` with no open tag.
pub open spec fn nothing_msg(pos: nat) -> Seq<char> {
    "closing tag '[/]' at position "@ + decimal_spec(pos) + " has nothing to close"@
}

/// Rendering state: the text so far, the open tags with their starts, the spans.
pub type MState = (Seq<char>, Seq<(nat, TagV)>, Seq<SpanM>);

/// One token applied to the rendering state: text is appended (unescaped), an opening
/// tag is pushed with its normalized name, a closing tag closes the last open tag of
/// its name (or, for `[/]`, the last open tag) and adds its span.
pub open spec fn step(t: TokenV, st: MState) -> Result<MState, Seq<char>> {
    let (text, stack, spans) = st;
    match t.1 {
        Some(content) => Ok((text + unescape(content), stack, spans)),
        None => match t.2 {
            None => Ok(st),
            Some(tag) => if tag.0.len() > 0 && tag.0[0] == '/' {
                let name = trim_spec(tag.0.drop_first());
                if name.len() > 0 {
                    match find_open(stack, normalize(name)) {
                        None => Err(unmatched_msg(tag, t.0)),
                        Some(i) => {
                            let (start, open) = stack[i];
                            Ok((text, stack.remove(i), spans + span_for(open, start, text.len())))
                        },
                    }
                } else if stack.len() == 0 {
                    Err(nothing_msg(t.0))
                } else {
                    let (start, open) = stack.last();
                    Ok((text, stack.drop_last(), spans + span_for(open, start, text.len())))
                }
            } else {
                Ok((text, stack.push((text.len(), (normalize(tag.0), tag.1))), spans))
            },
        },
    }
}

/// Process the tokens from `k` on.
pub open spec fn process(tokens: Seq<TokenV>, k: int, st: MState) -> Result<MState, Seq<char>>
    decreases tokens.len() - k,
{
    if k < 0 || k >= tokens.len() {
        Ok(st)
    } else {
        match step(tokens[k], st) {
            Err(m) => Err(m),
            Ok(st2) => process(tokens, k + 1, st2),
        }
    }
}

/// The spans of the tags left open, the last opened first, up to `n`.
pub open spec fn unwind(stack: Seq<(nat, TagV)>, n: nat) -> Seq<SpanM>
    decreases stack.len(),
{
    if stack.len() == 0 {
        Seq::empty()
    } else {
        span_for(stack.last().1, stack.last().0, n) + unwind(stack.drop_last(), n)
    }
}

/// The position at which a span starting at `start` goes: after all spans that do not
/// start later.
pub open spec fn first_later(v: Seq<SpanM>, start: nat, i: int) -> int
    decreases v.len() - i,
{
    if i < 0 || i >= v.len() {
        v.len() as int
    } else if v[i].0 > start {
        i
    } else {
        first_later(v, start, i + 1)
    }
}

/// Spans stably sorted by start.
pub open spec fn sort_spans(v: Seq<SpanM>) -> Seq<SpanM>
    decreases v.len(),
{
    if v.len() == 0 {
        Seq::empty()
    } else {
        let sorted = sort_spans(v.drop_last());
        sorted.insert(first_later(sorted, v.last().0, 0), v.last())
    }
}

/// What rendering markup gives: its text and its spans (the spans in reverse order of
/// creation, then stably sorted by start), or the message of an unexpected closing tag.
pub open spec fn render_spec(markup: Seq<char>) -> Result<(Seq<char>, Seq<SpanM>), Seq<char>> {
    if !markup.contains('[') {
        Ok((markup, Seq::empty()))
    } else {
        match process(parse_spec(markup), 0, (Seq::empty(), Seq::empty(), Seq::empty())) {
            Err(m) => Err(m),
            Ok((text, stack, spans)) => Ok((text, sort_spans((spans + unwind(stack, text.len())).reverse()))),
        }
    }
}

fn unescape_exec(s: &Vec<char>) -> (r: Vec<char>)
    ensures
        r@ == unescape(s@),
{
    let mut out: Vec<char> = Vec::new();
    let mut i: usize = 0;
    assert(s@.skip(0) =~= s@);
    while i < s.len()
        invariant
            i <= s.len(),
            out@ + unescape(s@.skip(i as int)) == unescape(s@),
        decreases s.len() - i,
    {
        let ghost rest = s@.skip(i as int);
        let ghost b = out@;
        if i + 1 < s.len() && s[i] == '\\' && s[i + 1] == '[' {
            out.push('[');
            assert(rest.skip(2) =~= s@.skip(i + 2));
            assert(out@ + unescape(s@.skip(i + 2)) =~= b + unescape(rest));
            i = i + 2;
        } else {
            out.push(s[i]);
            assert(rest.skip(1) =~= s@.skip(i + 1));
            assert(out@ + unescape(s@.skip(i + 1)) =~= b + unescape(rest));
            i = i + 1;
        }
    }
    assert(s@.skip(i as int) =~= Seq::<char>::empty());
    assert(out@ + Seq::<char>::empty() =~= out@);
    out
}

fn normalize_exec(name: &[char]) -> (r: String)
    ensures
        r@ == normalize(name@),
{
    let t = trim_chars(name);
    let ts = string_from_chars(t.as_slice());
    to_lowercase(ts.as_str())
}

fn meta_param_exec(p: &Option<String>) -> (r: MetaValue)
    ensures
        meta_value_v(r) == meta_param(match *p { Some(x) => Some(x@), None => None }),
{
    match p {
        None => MetaValue::Null,
        Some(x) => {
            let cs = str_chars(x.as_str());
            let t = trim_chars(cs.as_slice());
            if t.len() == 0 {
                MetaValue::Null
            } else {
                MetaValue::Str(string_from_chars(t.as_slice()))
            }
        },
    }
}

fn span_for_exec(tag: &Tag, start: usize, end: usize) -> (r: Option<Span>)
    ensures
        match r {
            Some(sp) => span_for(tag_view(*tag), start as nat, end as nat) == seq![span_m(sp)],
            None => span_for(tag_view(*tag), start as nat, end as nat) == Seq::<SpanM>::empty(),
        },
{
    let nc = str_chars(tag.name.as_str());
    if nc.len() > 0 && nc[0] == '@' {
        let mut m = MetaMap::new();
        m.insert(tag.name.as_str(), meta_param_exec(&tag.parameters));
        let ghost mv = meta_v(StyleMeta { link: None, meta: Some(m) });
        assert(m.entries@.map_values(|e: (String, MetaValue)| (e.0@, meta_value_v(e.1)))
            =~= seq![(tag.name@, meta_param(tag_view(*tag).1))]);
        let sp = Span::new_with_meta(start, end, Style::new(), Some(StyleMeta { link: None, meta: Some(m) }));
        assert(span_for(tag_view(*tag), start as nat, end as nat) =~= seq![span_m(sp)]);
        return Some(sp);
    }
    if crate::strs::str_eq(tag.name.as_str(), "link") {
        let st = Style::new().with_underline(true).with_color(SimpleColor::Standard(6));
        let sp = Span::new_with_meta(start, end, st, Some(StyleMeta { link: copy_opt(&tag.parameters), meta: None }));
        assert(st == link_style());
        assert(span_for(tag_view(*tag), start as nat, end as nat) =~= seq![span_m(sp)]);
        return Some(sp);
    }
    let text = tag.to_string();
    match Style::parse(text.as_str()) {
        Some(st) => {
            if !st.is_null() {
                let sp = Span::new(start, end, st);
                assert(span_for(tag_view(*tag), start as nat, end as nat) =~= seq![span_m(sp)]);
                Some(sp)
            } else {
                None
            }
        },
        None => None,
    }
}

/// The open tags as values.
pub open spec fn stack_view(v: Seq<(usize, Tag)>) -> Seq<(nat, TagV)> {
    v.map_values(|e: (usize, Tag)| (e.0 as nat, tag_view(e.1)))
}

fn find_open_exec(stack: &Vec<(usize, Tag)>, name: &String) -> (r: Option<usize>)
    ensures
        match (r, find_open(stack_view(stack@), name@)) {
            (Some(a), Some(b)) => a as int == b,
            (None, None) => true,
            _ => false,
        },
{
    let mut i: usize = stack.len();
    assert(stack_view(stack@).take(i as int) =~= stack_view(stack@));
    while i > 0
        invariant
            i <= stack.len(),
            find_open(stack_view(stack@), name@) == find_open(stack_view(stack@).take(i as int), name@),
        decreases i,
    {
        let nc = str_chars(stack[i - 1].1.name.as_str());
        let nn = normalize_exec(nc.as_slice());
        proof {
            let t = stack_view(stack@).take(i as int);
            assert(t.last() == (stack@[i - 1].0 as nat, tag_view(stack@[i - 1].1)));
            assert(t.drop_last() =~= stack_view(stack@).take(i - 1));
        }
        if crate::strs::str_eq(nn.as_str(), name.as_str()) {
            return Some(i - 1);
        }
        i = i - 1;
    }
    None
}

fn push_span_opt(spans: &mut Vec<Span>, sp: Option<Span>, ghost_tag: Ghost<TagV>, start: usize, end: usize)
    requires
        match sp {
            Some(x) => span_for(ghost_tag@, start as nat, end as nat) == seq![span_m(x)],
            None => span_for(ghost_tag@, start as nat, end as nat) == Seq::<SpanM>::empty(),
        },
    ensures
        spans_m(final(spans)@) == spans_m(old(spans)@) + span_for(ghost_tag@, start as nat, end as nat),
{
    let ghost b = spans_m(spans@);
    match sp {
        Some(x) => {
            spans.push(x);
            assert(spans_m(spans@) =~= b + seq![span_m(x)]);
        },
        None => {
            assert(spans_m(spans@) =~= b + Seq::<SpanM>::empty());
        },
    }
}

fn msg_unmatched(tag: &Tag, pos: usize) -> (r: String)
    ensures
        r@ == unmatched_msg(tag_view(*tag), pos as nat),
{
    let mut m = owned("closing tag '");
    let mk = tag.markup();
    push_str(&mut m, mk.as_str());
    push_str(&mut m, "' at position ");
    let n = usize_to_string(pos);
    push_str(&mut m, n.as_str());
    push_str(&mut m, " doesn't match any open tag");
    assert(m@ =~= unmatched_msg(tag_view(*tag), pos as nat));
    m
}

fn msg_nothing(pos: usize) -> (r: String)
    ensures
        r@ == nothing_msg(pos as nat),
{
    let mut m = owned("closing tag '[/]' at position ");
    let n = usize_to_string(pos);
    push_str(&mut m, n.as_str());
    push_str(&mut m, " has nothing to close");
    assert(m@ =~= nothing_msg(pos as nat));
    m
}

fn reverse_spans(v: Vec<Span>) -> (r: Vec<Span>)
    ensures
        r@ == v@.reverse(),
{
    let mut v = v;
    let ghost orig = v@;
    let mut rev: Vec<Span> = Vec::new();
    while v.len() > 0
        invariant
            orig == v@ + rev@.reverse(),
        decreases v.len(),
    {
        let ghost vb = v@;
        let x = v.pop().unwrap();
        let ghost rb = rev@;
        rev.push(x);
        proof {
            assert(rev@.reverse() =~= seq![x] + rb.reverse());
            assert(vb =~= v@.push(x));
            assert(orig =~= v@ + rev@.reverse());
        }
    }
    assert(v@ + rev@.reverse() =~= rev@.reverse());
    assert(rev@ =~= orig.reverse());
    rev
}

fn sort_spans_exec(v: Vec<Span>) -> (r: Vec<Span>)
    ensures
        spans_m(r@) == sort_spans(spans_m(v@)),
{
    let vl = v.len();
    let mut rest = reverse_spans(v);
    let ghost orig = spans_m(v@);
    let mut sorted: Vec<Span> = Vec::new();
    let mut done: usize = 0;
    while rest.len() > 0
        invariant
            spans_m(rest@).reverse() =~= orig.skip(done as int),
            done + rest@.len() == orig.len(),
            orig.len() == vl,
            spans_m(sorted@) == sort_spans(orig.take(done as int)),
        decreases rest.len(),
    {
        let ghost rb = rest@;
        let x = rest.pop().unwrap();
        proof {
            assert(rb =~= rest@.push(x));
            assert(spans_m(rb).reverse()[0] == span_m(x));
            assert(orig.skip(done as int)[0] == span_m(x));
            assert(spans_m(rest@).reverse() =~= spans_m(rb).reverse().drop_first());
            assert(orig.skip(done + 1) =~= orig.skip(done as int).drop_first());
            assert(orig.take(done + 1).drop_last() =~= orig.take(done as int));
            assert(orig.take(done + 1).last() == span_m(x));
        }
        let ghost sv = spans_m(sorted@);
        let mut k: usize = 0;
        while k < sorted.len() && sorted[k].start <= x.start
            invariant
                k <= sorted.len(),
                sv == spans_m(sorted@),
                first_later(sv, x.start as nat, k as int) == first_later(sv, x.start as nat, 0),
            decreases sorted.len() - k,
        {
            k = k + 1;
        }
        sorted.insert(k, x);
        assert(spans_m(sorted@) =~= sv.insert(k as int, span_m(x)));
        done = done + 1;
    }
    assert(orig.take(done as int) =~= orig);
    sorted
}

fn step_exec(tok: &(usize, Option<String>, Option<Tag>), text: &mut Vec<char>, stack: &mut Vec<(usize, Tag)>, spans: &mut Vec<Span>) -> (r: Option<String>)
    ensures
        match (r, step(token_view(*tok), (old(text)@, stack_view(old(stack)@), spans_m(old(spans)@)))) {
            (Some(m), Err(x)) => m@ == x,
            (None, Ok(st)) => st == (final(text)@, stack_view(final(stack)@), spans_m(final(spans)@)),
            _ => false,
        },
{
    match &tok.1 {
        Some(content) => {
            let cc = str_chars(content.as_str());
            let u = unescape_exec(&cc);
            let mut j: usize = 0;
            let ghost tb = text@;
            while j < u.len()
                invariant
                    j <= u.len(),
                    text@ =~= tb + u@.take(j as int),
                    stack@ == old(stack)@,
                    spans@ == old(spans)@,
                decreases u.len() - j,
            {
                text.push(u[j]);
                j = j + 1;
            }
            assert(u@.take(j as int) =~= u@);
            None
        },
        None => {
            match &tok.2 {
                None => None,
                Some(tag) => {
                    let nc = str_chars(tag.name.as_str());
                    if nc.len() > 0 && nc[0] == '/' {
                        let rest = crate::strs::sub_chars(nc.as_slice(), 1, nc.len());
                        assert(rest@ =~= tag.name@.drop_first());
                        let name = trim_chars(rest.as_slice());
                        if name.len() > 0 {
                            let nn = normalize_exec(name.as_slice());
                            match find_open_exec(stack, &nn) {
                                None => {
                                    Some(msg_unmatched(tag, tok.0))
                                },
                                Some(i) => {
                                    let ghost sv = stack_view(stack@);
                                    proof {
                                        lemma_find_open(sv, nn@);
                                    }
                                    let (start, open) = stack.remove(i);
                                    assert(stack_view(stack@) =~= sv.remove(i as int));
                                    let sp = span_for_exec(&open, start, text.len());
                                    push_span_opt(spans, sp, Ghost(tag_view(open)), start, text.len());
                                    None
                                },
                            }
                        } else {
                            if stack.len() == 0 {
                                return Some(msg_nothing(tok.0));
                            }
                            let ghost sv = stack_view(stack@);
                            let (start, open) = stack.pop().unwrap();
                            assert(stack_view(stack@) =~= sv.drop_last());
                            let sp = span_for_exec(&open, start, text.len());
                            push_span_opt(spans, sp, Ghost(tag_view(open)), start, text.len());
                            None
                        }
                    } else {
                        let nn = normalize_exec(nc.as_slice());
                        let ghost sv = stack_view(stack@);
                        stack.push((text.len(), Tag { name: nn, parameters: copy_opt(&tag.parameters) }));
                        assert(stack_view(stack@) =~= sv.push((text@.len(), (normalize(tag.name@), tag_view(*tag).1))));
                        None
                    }
                },
            }
        },
    }
}

/// The lines of a tag left open lie within the stack.
pub proof fn lemma_find_open(stack: Seq<(nat, TagV)>, name: Seq<char>)
    ensures
        find_open(stack, name) matches Some(i) ==> 0 <= i < stack.len(),
    decreases stack.len(),
{
    if stack.len() > 0 && normalize(stack.last().1.0) != name {
        lemma_find_open(stack.drop_last(), name);
    }
}

fn run_tokens(tokens: &Vec<(usize, Option<String>, Option<Tag>)>) -> (r: Result<(Vec<char>, Vec<(usize, Tag)>, Vec<Span>), String>)
    ensures
        match (r, process(tokens_view(tokens@), 0, (Seq::empty(), Seq::empty(), Seq::empty()))) {
            (Ok((t, st, sp)), Ok(m)) => m == (t@, stack_view(st@), spans_m(sp@)),
            (Err(e), Err(x)) => e@ == x,
            _ => false,
        },
{
    let ghost tv = tokens_view(tokens@);
    let mut text: Vec<char> = Vec::new();
    let mut stack: Vec<(usize, Tag)> = Vec::new();
    let mut spans: Vec<Span> = Vec::new();
    let mut k: usize = 0;
    assert(stack_view(stack@) =~= Seq::<(nat, TagV)>::empty());
    assert(spans_m(spans@) =~= Seq::<SpanM>::empty());
    assert(text@ =~= Seq::<char>::empty());
    while k < tokens.len()
        invariant
            k <= tokens.len(),
            tv == tokens_view(tokens@),
            process(tv, k as int, (text@, stack_view(stack@), spans_m(spans@)))
                == process(tv, 0, (Seq::empty(), Seq::empty(), Seq::empty())),
        decreases tokens.len() - k,
    {
        let tok = &tokens[k];
        let ghost st = (text@, stack_view(stack@), spans_m(spans@));
        assert(tv[k as int] == token_view(*tok));
        match step_exec(tok, &mut text, &mut stack, &mut spans) {
            Some(m) => {
                return Err(m);
            },
            None => {},
        }
        assert(process(tv, k as int, st) == process(tv, k + 1, (text@, stack_view(stack@), spans_m(spans@))));
        k = k + 1;
    }
    Ok((text, stack, spans))
}

fn finish(text: Vec<char>, stack: Vec<(usize, Tag)>, spans: Vec<Span>) -> (t: Text)
    ensures
        t@.plain == text@,
        spans_m(t.span_values()) == sort_spans((spans_m(spans@) + unwind(stack_view(stack@), text@.len())).reverse()),
        t@.style is None && t@.justify is None && t@.overflow is None && t@.no_wrap is None,
{
    let mut stack = stack;
    let mut spans = spans;
    let n = text.len();
    let ghost final_stack = stack_view(stack@);
    let ghost final_spans = spans_m(spans@);
    assert(unwind(Seq::<(nat, TagV)>::empty(), n as nat) =~= Seq::<SpanM>::empty());
    while stack.len() > 0
        invariant
            n == text@.len(),
            spans_m(spans@) + unwind(stack_view(stack@), n as nat) =~= final_spans + unwind(final_stack, n as nat),
        decreases stack.len(),
    {
        let ghost sv = stack_view(stack@);
        let ghost pb = spans_m(spans@);
        let (start, open) = stack.pop().unwrap();
        assert(stack_view(stack@) =~= sv.drop_last());
        assert(sv.last() == (start as nat, tag_view(open)));
        let sp = span_for_exec(&open, start, n);
        push_span_opt(&mut spans, sp, Ghost(tag_view(open)), start, n);
        assert(spans_m(spans@) + unwind(stack_view(stack@), n as nat) =~= pb + unwind(sv, n as nat));
    }
    assert(unwind(stack_view(stack@), n as nat) =~= Seq::<SpanM>::empty());
    let ghost all = spans_m(spans@);
    let rev = reverse_spans(spans);
    assert(spans_m(rev@) =~= all.reverse());
    let sorted = sort_spans_exec(rev);
    let ts = string_from_chars(text.as_slice());
    let mut t = Text::new();
    t.append(ts.as_str(), None);
    assert(t.span_values() == Seq::<Span>::empty());
    let ghost sv = spans_m(sorted@);
    let sl = sorted.len();
    let mut rs = reverse_spans(sorted);
    let mut j: usize = 0;
    while rs.len() > 0
        invariant
            j + rs@.len() == sv.len(),
            sv.len() == sl,
            spans_m(rs@).reverse() =~= sv.skip(j as int),
            spans_m(t.span_values()) =~= sv.take(j as int),
            t@.plain == text@,
            t@.style is None && t@.justify is None && t@.overflow is None && t@.no_wrap is None,
        decreases rs.len(),
    {
        let ghost rb = rs@;
        let x = rs.pop().unwrap();
        proof {
            assert(rb =~= rs@.push(x));
            assert(spans_m(rb).reverse()[0] == span_m(x));
            assert(sv.skip(j as int)[0] == span_m(x));
            assert(spans_m(rs@).reverse() =~= spans_m(rb).reverse().drop_first());
            assert(sv.skip(j + 1) =~= sv.skip(j as int).drop_first());
            assert(sv.take(j + 1) =~= sv.take(j as int).push(span_m(x)));
        }
        let ghost before = t.span_values();
        t.push_span(x);
        assert(spans_m(t.span_values()) =~= spans_m(before).push(span_m(x)));
        j = j + 1;
    }
    assert(sv.take(j as int) =~= sv);
    t
}

/// Render markup into text: the text between tags, with a span for each tag (closed,
/// or left open to the end) whose style sets something, links and metadata spans
/// included. A closing tag that matches no open tag is an error. Emoji codes are left
/// as they are.
pub fn render(markup: &str, emoji: bool) -> (r: Result<Text, ParseError>)
    requires
        utf8_width(markup@) <= usize::MAX,
    ensures
        match (r, render_spec(markup@)) {
            (Ok(t), Ok((text, spans))) => t@.plain == text && spans_m(t.span_values()) == spans
                && t@.style is None && t@.justify is None && t@.overflow is None && t@.no_wrap is None,
            (Err(e), Err(m)) => e matches ParseError::UnexpectedClosingTag(x) && x@ == m,
            _ => false,
        },
{
    let mc = str_chars(markup);
    if !crate::strs::chars_contain(mc.as_slice(), '[') {
        let t = Text::plain(markup);
        assert(spans_m(t.span_values()) =~= Seq::<SpanM>::empty());
        return Ok(t);
    }
    let tokens = parse(markup);
    match run_tokens(&tokens) {
        Err(m) => Err(ParseError::UnexpectedClosingTag(m)),
        Ok((text, stack, spans)) => Ok(finish(text, stack, spans)),
    }
}

/// A style name trimmed and in lower case.
pub fn normalize_style(style: &str) -> (r: String)
    ensures
        r@ == normalize(style@),
{
    let cs = str_chars(style);
    normalize_exec(cs.as_slice())
}

/// Render markup and apply a base style over the whole text.
pub fn render_with_style(markup: &str, style: Style, emoji: bool) -> (r: Result<Text, ParseError>)
    requires
        utf8_width(markup@) <= usize::MAX,
    ensures
        match (r, render_spec(markup@)) {
            (Ok(t), Ok((text, spans))) => t@.plain == text
                && spans_m(t.span_values()) == (if text.len() > 0 {
                    spans.push((0, text.len(), style, None::<MetaV>))
                } else {
                    spans
                })
                && t@.style is None && t@.justify is None && t@.overflow is None && t@.no_wrap is None,
            (Err(e), Err(m)) => e matches ParseError::UnexpectedClosingTag(x) && x@ == m,
            _ => false,
        },
{
    match render(markup, emoji) {
        Err(e) => Err(e),
        Ok(t) => {
            let mut t = t;
            let n = t.len();
            if n > 0 {
                let ghost before = t.span_values();
                t.push_span(Span::new(0, n, style));
                assert(spans_m(t.span_values()) =~= spans_m(before).push((0, n as nat, style, None::<MetaV>)));
            }
            Ok(t)
        },
    }
}


/// The pattern of what `escape` escapes: a run of backslashes, then a bracket that
/// opens like a tag (a lowercase letter, `#`, `/` or `@`) up to the next closing bracket.
pub open spec fn escape_pattern_spec() -> Seq<char> {
    r"(\\*)(\[[a-z#/@][^\[]*?])"@
}

/// Characters `a..b` of a text by byte offsets, when the offsets fall in order in it.
pub open spec fn byte_range_ok(t: Seq<char>, g: Option<(usize, usize)>, from: nat) -> bool {
    match g {
        Some(p) => from <= crate::highlighter::char_at_byte(t, p.0 as nat) <= crate::highlighter::char_at_byte(t, p.1 as nat) <= t.len(),
        None => false,
    }
}

/// The characters of a group, by its byte offsets.
pub open spec fn group_chars(t: Seq<char>, g: Option<(usize, usize)>) -> Seq<char> {
    match g {
        Some(p) => t.subrange(crate::highlighter::char_at_byte(t, p.0 as nat) as int, crate::highlighter::char_at_byte(t, p.1 as nat) as int),
        None => Seq::empty(),
    }
}

/// Whether a match is one that `escape` rewrites: its whole match and both groups
/// present and in order after what was copied already.
pub open spec fn usable_match(t: Seq<char>, g: Seq<Option<(usize, usize)>>, last: nat) -> bool {
    g.len() >= 3 && byte_range_ok(t, g[0], last) && byte_range_ok(t, g[1], 0) && byte_range_ok(t, g[2], 0)
}

/// The text from character `last` on, with matches `k..` rewritten: each match's
/// backslashes doubled and one more added before its bracket.
pub open spec fn escape_from(t: Seq<char>, ms: Seq<Seq<Option<(usize, usize)>>>, k: int, last: nat) -> Seq<char>
    decreases ms.len() - k,
{
    if k < 0 || k >= ms.len() {
        if last <= t.len() { t.subrange(last as int, t.len() as int) } else { Seq::empty() }
    } else if usable_match(t, ms[k], last) {
        let g = ms[k];
        let a = crate::highlighter::char_at_byte(t, (g[0]->0).0 as nat);
        let b = crate::highlighter::char_at_byte(t, (g[0]->0).1 as nat);
        let bs = group_chars(t, g[1]);
        t.subrange(last as int, a as int) + bs + bs + seq!['\\'] + group_chars(t, g[2]) + escape_from(t, ms, k + 1, b)
    } else {
        escape_from(t, ms, k + 1, last)
    }
}

/// Escaped text given the matches of the escape pattern: the matches rewritten, then one
/// more backslash when the result ends in a single backslash.
pub open spec fn escape_spec(t: Seq<char>, ms: Seq<Seq<Option<(usize, usize)>>>) -> Seq<char> {
    let r = escape_from(t, ms, 0, 0);
    if r.len() > 0 && r.last() == '\\' && !(r.len() > 1 && r[r.len() - 2] == '\\') { r.push('\\') } else { r }
}

/// Whether a group's offsets fall in order in the text, from character `from` on
/// (see `byte_range_ok`); the character range when they do.
fn group_range(t: &Vec<char>, g: Option<(usize, usize)>, from: usize) -> (r: Option<(usize, usize)>)
    ensures
        byte_range_ok(t@, g, from as nat) <==> r is Some,
        r is Some ==> (r->0).0 == crate::highlighter::char_at_byte(t@, (g->0).0 as nat)
            && (r->0).1 == crate::highlighter::char_at_byte(t@, (g->0).1 as nat),
{
    match g {
        Some(p) => {
            let a = crate::highlighter::char_index_of(t, p.0);
            let b = crate::highlighter::char_index_of(t, p.1);
            if from <= a && a <= b && b <= t.len() { Some((a, b)) } else { None }
        },
        None => None,
    }
}

/// Push characters `a..b` of a text.
fn push_range(out: &mut Vec<char>, t: &Vec<char>, a: usize, b: usize)
    requires
        a <= b <= t@.len(),
    ensures
        final(out)@ == old(out)@ + t@.subrange(a as int, b as int),
{
    let mut i = a;
    while i < b
        invariant
            a <= i <= b,
            b <= t@.len(),
            out@ == old(out)@ + t@.subrange(a as int, i as int),
        decreases b - i,
    {
        out.push(t[i]);
        assert(out@ =~= old(out)@ + t@.subrange(a as int, i + 1));
        i = i + 1;
    }
}

/// Escape text given the matches of the escape pattern (see `escape_spec`).
fn escape_with_matches(t: &Vec<char>, ms: &Vec<Vec<Option<(usize, usize)>>>) -> (r: Vec<char>)
    ensures
        r@ == escape_spec(t@, ms@.map_values(|m: Vec<Option<(usize, usize)>>| m@)),
{
    let ghost mv = ms@.map_values(|m: Vec<Option<(usize, usize)>>| m@);
    let mut out: Vec<char> = Vec::new();
    let mut last: usize = 0;
    let mut k: usize = 0;
    while k < ms.len()
        invariant
            k <= ms@.len(),
            last <= t@.len(),
            mv == ms@.map_values(|m: Vec<Option<(usize, usize)>>| m@),
            out@ + escape_from(t@, mv, k as int, last as nat) == escape_from(t@, mv, 0, 0),
        decreases ms.len() - k,
    {
        let g = &ms[k];
        assert(mv[k as int] == g@);
        if g.len() >= 3 {
            let whole = group_range(t, g[0], last);
            let g1 = group_range(t, g[1], 0);
            let g2 = group_range(t, g[2], 0);
            if whole.is_some() && g1.is_some() && g2.is_some() {
                let (a, b) = whole.unwrap();
                let (s1, e1) = g1.unwrap();
                let (s2, e2) = g2.unwrap();
                let ghost before = out@;
                push_range(&mut out, t, last, a);
                push_range(&mut out, t, s1, e1);
                push_range(&mut out, t, s1, e1);
                out.push('\\');
                push_range(&mut out, t, s2, e2);
                assert(usable_match(t@, mv[k as int], last as nat));
                assert(out@ == before + t@.subrange(last as int, a as int) + group_chars(t@, g@[1]) + group_chars(t@, g@[1]) + seq!['\\'] + group_chars(t@, g@[2]));
                last = b;
            } else {
                assert(!usable_match(t@, mv[k as int], last as nat));
            }
        } else {
            assert(!usable_match(t@, mv[k as int], last as nat));
        }
        k = k + 1;
    }
    let ghost before = out@;
    push_range(&mut out, t, last, t.len());
    assert(out@ =~= escape_from(t@, mv, 0, 0));
    let n = out.len();
    if n > 0 && out[n - 1] == '\\' && !(n > 1 && out[n - 2] == '\\') {
        out.push('\\');
    }
    out
}

/// Escape text so that markup shows it as it is: before each bracket that would open a
/// tag, the backslashes in front of it are doubled and one more is added; a single
/// backslash at the end is doubled. The text is unchanged if the escape pattern does
/// not compile.
pub fn escape(markup: &str) -> (r: String)
    ensures
        crate::highlighter::regex_compiles(escape_pattern_spec()) ==> r@ == escape_spec(markup@, crate::highlighter::regex_match_groups(escape_pattern_spec(), markup@)),
        !crate::highlighter::regex_compiles(escape_pattern_spec()) ==> r@ == markup@,
{
    let pattern = r"(\\*)(\[[a-z#/@][^\[]*?])";
    if !crate::highlighter::pattern_compiles(pattern) {
        return owned(markup);
    }
    let ms = crate::highlighter::match_groups(pattern, markup);
    let t = str_chars(markup);
    let r = escape_with_matches(&t, &ms);
    string_from_chars(r.as_slice())
}

} // verus!
