//! Highlighters: styling applied to text.
use vstd::prelude::*;
use crate::text::{Text, TextModel};
use crate::theme::{Theme, lookup};
use crate::style::Style;
use crate::strs::{push_str, owned};
use crate::markup::utf8_len;

verus! {

broadcast use vstd::string::group_string_axioms;

/// Something that styles text in place.
pub trait Highlighter {
    /// Apply highlighting to text.
    fn highlight(&self, text: &mut Text);
}

/// A highlighter that leaves text as it is.
#[derive(Debug, Clone, Copy, PartialEq, Eq, Structural)]
pub struct NullHighlighter;

impl Highlighter for NullHighlighter {
    fn highlight(&self, text: &mut Text)
        ensures
            final(text)@ == old(text)@,
            final(text).span_values() == old(text).span_values(),
    {
    }
}

impl Default for NullHighlighter {
    fn default() -> (r: Self)
        ensures
            r == NullHighlighter,
    {
        NullHighlighter
    }
}

/// Patterns joined with `|`.
pub open spec fn join_bar(p: Seq<Seq<char>>) -> Seq<char>
    decreases p.len(),
{
    if p.len() == 0 {
        Seq::empty()
    } else if p.len() == 1 {
        p[0]
    } else {
        join_bar(p.drop_last()) + seq!['|'] + p.last()
    }
}

/// The values of string slices.
pub open spec fn strs_view(v: Seq<&str>) -> Seq<Seq<char>> {
    v.map_values(|s: &str| s@)
}

/// Combine patterns into one that matches any of them.
pub fn combine_regex(patterns: &[&str]) -> (r: String)
    ensures
        r@ == join_bar(strs_view(patterns@)),
{
    let mut out = String::new();
    let mut i: usize = 0;
    while i < patterns.len()
        invariant
            i <= patterns.len(),
            out@ == join_bar(strs_view(patterns@.take(i as int))),
        decreases patterns.len() - i,
    {
        let ghost before = out@;
        proof {
            assert(strs_view(patterns@.take(i + 1)).drop_last() =~= strs_view(patterns@.take(i as int)));
            assert(strs_view(patterns@.take(i + 1)).last() == patterns@[i as int]@);
        }
        if i > 0 {
            out.push('|');
        }
        push_str(&mut out, patterns[i]);
        proof {
            if i == 0 {
                assert(strs_view(patterns@.take(1)) =~= seq![patterns@[0]@]);
                assert(out@ =~= patterns@[0]@);
            } else {
                assert(out@ =~= before + seq!['|'] + patterns@[i as int]@);
            }
        }
        i = i + 1;
    }
    assert(patterns@.take(i as int) =~= patterns@);
    out
}

/// The error of a pattern that `regex` refuses.
#[verifier::external_type_specification]
#[verifier::external_body]
pub struct ExRegexError(regex::Error);

/// Whether `regex` compiles a pattern.
pub uninterp spec fn regex_compiles(pattern: Seq<char>) -> bool;

/// The names of a compiled pattern's capture groups by group index (`None` for an
/// unnamed group, the whole match first).
pub uninterp spec fn regex_group_names(pattern: Seq<char>) -> Seq<Option<Seq<char>>>;

/// For each successive non-overlapping match of a pattern in a text, the byte range of
/// each capture group by group index (`None` where the group took no part).
pub uninterp spec fn regex_match_groups(pattern: Seq<char>, haystack: Seq<char>) -> Seq<Seq<Option<(usize, usize)>>>;

/// Compile a pattern with `regex::Regex::new` and keep only whether it compiled (the
/// compiled value is not kept: the other calls compile the pattern again). The result
/// is `Ok` exactly when the pattern compiles.
#[verifier::external_body]
fn compile_pattern(pattern: &str) -> (r: Result<(), regex::Error>)
    ensures
        r is Ok <==> regex_compiles(pattern@),
{
    match regex::Regex::new(pattern) {
        Ok(_) => Ok(()),
        Err(e) => Err(e),
    }
}

/// The capture group names of a pattern, from `regex::Regex::capture_names` on the
/// compiled pattern; they are the named result for the pattern.
#[verifier::external_body]
fn group_names(pattern: &str) -> (r: Vec<Option<String>>)
    requires
        regex_compiles(pattern@),
    ensures
        r@.map_values(|n: Option<String>| match n { Some(x) => Some(x@), None => None }) == regex_group_names(pattern@),
{
    let re = regex::Regex::new(pattern).unwrap();
    re.capture_names().map(|n| n.map(|x| x.to_string())).collect()
}

/// The groups of each match of a pattern in a text, from `regex::Regex::captures_iter`
/// with each `Captures::iter` group as its byte range; they are the named result for
/// the pattern and the text.
#[verifier::external_body]
pub(crate) fn match_groups(pattern: &str, haystack: &str) -> (r: Vec<Vec<Option<(usize, usize)>>>)
    requires
        regex_compiles(pattern@),
    ensures
        r@.map_values(|m: Vec<Option<(usize, usize)>>| m@) == regex_match_groups(pattern@, haystack@),
{
    let re = regex::Regex::new(pattern).unwrap();
    re.captures_iter(haystack).map(|c| c.iter().map(|m| m.map(|m| (m.start(), m.end()))).collect()).collect()
}

/// Whether `regex` compiles a pattern.
pub fn pattern_compiles(pattern: &str) -> (r: bool)
    ensures
        r == regex_compiles(pattern@),
{
    compile_pattern(pattern).is_ok()
}

/// The index of the character that starts at byte offset `b` of a text (the number of
/// characters before it).
pub open spec fn char_at_byte(t: Seq<char>, b: nat) -> nat
    decreases t.len(),
{
    if b == 0 || t.len() == 0 {
        0
    } else {
        1 + char_at_byte(t.drop_first(), if b >= utf8_len(t[0]) { (b - utf8_len(t[0])) as nat } else { 0 })
    }
}

/// A named group that took part in a match: its byte range and its name.
pub type Hit = (usize, usize, Seq<char>);

/// The named groups among the first `j` groups of one match.
pub open spec fn match_hits(names: Seq<Option<Seq<char>>>, groups: Seq<Option<(usize, usize)>>, j: nat) -> Seq<Hit>
    decreases j,
{
    if j == 0 {
        Seq::empty()
    } else {
        let k = (j - 1) as int;
        match_hits(names, groups, (j - 1) as nat) + (if k < names.len() && k < groups.len() && names[k] is Some && groups[k] is Some {
            seq![(groups[k].unwrap().0, groups[k].unwrap().1, names[k].unwrap())]
        } else {
            Seq::empty()
        })
    }
}

/// The named groups of each match, match by match.
pub open spec fn pattern_hits(names: Seq<Option<Seq<char>>>, matches: Seq<Seq<Option<(usize, usize)>>>) -> Seq<Hit>
    decreases matches.len(),
{
    if matches.len() == 0 {
        Seq::empty()
    } else {
        pattern_hits(names, matches.drop_last()) + match_hits(names, matches.last(), names.len())
    }
}

/// The named groups of every match of each pattern in a text, pattern by pattern.
pub open spec fn named_hits(patterns: Seq<Seq<char>>, t: Seq<char>) -> Seq<Hit>
    decreases patterns.len(),
{
    if patterns.len() == 0 {
        Seq::empty()
    } else {
        named_hits(patterns.drop_last(), t)
            + pattern_hits(regex_group_names(patterns.last()), regex_match_groups(patterns.last(), t))
    }
}

/// Text with a style over characters `s..e` (cut to its length); unchanged when that is
/// empty.
pub open spec fn stylize_spec(m: TextModel, s: nat, e: nat, st: Style) -> TextModel {
    let n = m.plain.len();
    let e2 = if e > n { n } else { e };
    if s < e2 {
        TextModel { spans: m.spans.push((s as usize, e2 as usize, st)), ..m }
    } else {
        m
    }
}

/// Text with the theme's style for each hit's group name (after the base prefix), where
/// the theme has one, laid over the hit's characters, hit by hit. `t` is the plain text
/// that the byte ranges refer to.
pub open spec fn apply_hits(m: TextModel, hits: Seq<Hit>, base: Seq<char>, theme: Seq<(Seq<char>, Style)>, t: Seq<char>) -> TextModel
    decreases hits.len(),
{
    if hits.len() == 0 {
        m
    } else {
        let m1 = apply_hits(m, hits.drop_last(), base, theme, t);
        let h = hits.last();
        match lookup(theme, base + h.2) {
            Some(st) => stylize_spec(m1, char_at_byte(t, h.0 as nat), char_at_byte(t, h.1 as nat), st),
            None => m1,
        }
    }
}

/// A highlighter that styles the named capture groups of regular expressions: a group
/// named `x` gets the theme's style `<base>x`.
pub struct RegexHighlighter {
    /// The patterns, each compiled by `regex`.
    highlights: Vec<String>,
    /// The prefix of the style names.
    pub base_style: String,
    theme: Theme,
}

/// The settings of a regex highlighter.
pub struct RegexHighlighterModel {
    /// The patterns.
    pub patterns: Seq<Seq<char>>,
    /// The prefix of the style names.
    pub base_style: Seq<char>,
    /// The theme the styles come from.
    pub theme: Seq<(Seq<char>, Style)>,
}

impl View for RegexHighlighter {
    type V = RegexHighlighterModel;

    closed spec fn view(&self) -> RegexHighlighterModel {
        RegexHighlighterModel {
            patterns: self.highlights@.map_values(|p: String| p@),
            base_style: self.base_style@,
            theme: self.theme@,
        }
    }
}

impl RegexHighlighter {
    #[verifier::type_invariant]
    spec fn compiled(self) -> bool {
        forall|i: int| 0 <= i < self.highlights@.len() ==> regex_compiles(#[trigger] self.highlights@[i]@)
    }

    /// A highlighter of patterns that all compile, with the default theme.
    pub fn new(patterns: &[&str], base_style: &str) -> (r: Self)
        requires
            forall|i: int| 0 <= i < patterns@.len() ==> regex_compiles(#[trigger] patterns@[i]@),
        ensures
            r@.patterns == strs_view(patterns@),
            r@.base_style == base_style@,
            r@.theme == crate::theme::default_entries(),
    {
        let mut hs: Vec<String> = Vec::new();
        let mut i: usize = 0;
        while i < patterns.len()
            invariant
                i <= patterns@.len(),
                forall|k: int| 0 <= k < patterns@.len() ==> regex_compiles(#[trigger] patterns@[k]@),
                hs@.map_values(|p: String| p@) == strs_view(patterns@.take(i as int)),
            decreases patterns.len() - i,
        {
            let ghost before = hs@;
            hs.push(owned(patterns[i]));
            assert(hs@ == before.push(hs@.last()));
            assert(hs@.map_values(|p: String| p@) =~= before.map_values(|p: String| p@).push(patterns@[i as int]@));
            assert(strs_view(patterns@.take(i + 1)) =~= strs_view(patterns@.take(i as int)).push(patterns@[i as int]@));
            i = i + 1;
        }
        assert(patterns@.take(i as int) =~= patterns@);
        assert forall|k: int| 0 <= k < hs@.len() implies regex_compiles(#[trigger] hs@[k]@) by {
            assert(hs@[k]@ == hs@.map_values(|p: String| p@)[k]);
        }
        RegexHighlighter { highlights: hs, base_style: owned(base_style), theme: Theme::default_theme() }
    }

    /// A highlighter of the patterns with the default theme, or the error of the first
    /// pattern that does not compile.
    pub fn try_new(patterns: &[&str], base_style: &str) -> (r: Result<Self, regex::Error>)
        ensures
            r is Ok <==> forall|i: int| 0 <= i < patterns@.len() ==> regex_compiles(#[trigger] patterns@[i]@),
            r is Ok ==> r.unwrap()@.patterns == strs_view(patterns@) && r.unwrap()@.base_style == base_style@
                && r.unwrap()@.theme == crate::theme::default_entries(),
    {
        let mut i: usize = 0;
        while i < patterns.len()
            invariant
                i <= patterns@.len(),
                forall|k: int| 0 <= k < i ==> regex_compiles(#[trigger] patterns@[k]@),
            decreases patterns.len() - i,
        {
            match compile_pattern(patterns[i]) {
                Ok(()) => {},
                Err(e) => {
                    return Err(e);
                },
            }
            i = i + 1;
        }
        Ok(Self::new(patterns, base_style))
    }

    /// The patterns.
    pub fn highlights(&self) -> (r: &Vec<String>)
        ensures
            r@.map_values(|p: String| p@) == self@.patterns,
    {
        &self.highlights
    }

    /// The prefix of the style names.
    pub fn base_style(&self) -> (r: &String)
        ensures
            r@ == self@.base_style,
    {
        &self.base_style
    }

    /// The highlighter with another theme.
    pub fn with_theme(self, theme: Theme) -> (r: Self)
        ensures
            r@ == (RegexHighlighterModel { theme: theme@, ..self@ }),
    {
        proof {
            use_type_invariant(&self);
        }
        RegexHighlighter { theme, ..self }
    }
}

/// The index of the character at a byte offset of a text (see `char_at_byte`).
pub(crate) fn char_index_of(t: &Vec<char>, b: usize) -> (r: usize)
    ensures
        r == char_at_byte(t@, b as nat),
{
    let mut k: usize = 0;
    let mut rem: usize = b;
    assert(t@.skip(0) =~= t@);
    while rem > 0 && k < t.len()
        invariant
            k <= t@.len(),
            char_at_byte(t@, b as nat) == k + char_at_byte(t@.skip(k as int), rem as nat),
        decreases t@.len() - k,
    {
        let w = crate::markup::char_utf8_len(t[k]);
        assert(t@.skip(k as int)[0] == t@[k as int]);
        assert(t@.skip(k as int).drop_first() =~= t@.skip(k + 1));
        rem = if rem >= w { rem - w } else { 0 };
        k = k + 1;
    }
    k
}

/// Style the named groups of one match.
fn apply_match(text: &mut Text, names: &Vec<Option<String>>, groups: &Vec<Option<(usize, usize)>>, base: &String, theme: &Theme, t: &Vec<char>)
    requires
        old(text)@.plain == t@,
    ensures
        final(text)@ == apply_hits(old(text)@, match_hits(names_view(names@), groups@, names@.len()), base@, theme@, t@),
{
    let ghost nv = names_view(names@);
    let ghost start = text@;
    let mut j: usize = 0;
    while j < names.len()
        invariant
            j <= names@.len(),
            nv == names_view(names@),
            nv.len() == names@.len(),
            text@.plain == t@,
            text@ == apply_hits(start, match_hits(nv, groups@, j as nat), base@, theme@, t@),
        decreases names.len() - j,
    {
        let ghost hs = match_hits(nv, groups@, j as nat);
        if j < groups.len() {
            match (&names[j], groups[j]) {
                (Some(n), Some((s, e))) => {
                    let mut name = base.clone();
                    push_str(&mut name, n.as_str());
                    let ghost h = (s, e, n@);
                    assert(match_hits(nv, groups@, (j + 1) as nat) =~= hs.push(h));
                    assert(hs.push(h).drop_last() =~= hs);
                    match theme.get_style(name.as_str()) {
                        Some(st) => {
                            let cs = char_index_of(t, s);
                            let ce = char_index_of(t, e);
                            text.stylize(cs, ce, st);
                        },
                        None => {},
                    }
                },
                _ => {
                    assert(match_hits(nv, groups@, (j + 1) as nat) =~= hs);
                },
            }
        } else {
            assert(match_hits(nv, groups@, (j + 1) as nat) =~= hs);
        }
        j = j + 1;
    }
}

/// Names by their characters.
pub open spec fn names_view(v: Seq<Option<String>>) -> Seq<Option<Seq<char>>> {
    v.map_values(|n: Option<String>| match n { Some(x) => Some(x@), None => None })
}

proof fn lemma_apply_hits_append(m: TextModel, a: Seq<Hit>, b: Seq<Hit>, base: Seq<char>, theme: Seq<(Seq<char>, Style)>, t: Seq<char>)
    ensures
        apply_hits(m, a + b, base, theme, t) == apply_hits(apply_hits(m, a, base, theme, t), b, base, theme, t),
    decreases b.len(),
{
    if b.len() == 0 {
        assert(a + b =~= a);
    } else {
        lemma_apply_hits_append(m, a, b.drop_last(), base, theme, t);
        assert((a + b).drop_last() =~= a + b.drop_last());
        assert((a + b).last() == b.last());
    }
}

pub proof fn lemma_apply_hits_plain(m: TextModel, hits: Seq<Hit>, base: Seq<char>, theme: Seq<(Seq<char>, Style)>, t: Seq<char>)
    ensures
        apply_hits(m, hits, base, theme, t).plain == m.plain,
    decreases hits.len(),
{
    if hits.len() > 0 {
        lemma_apply_hits_plain(m, hits.drop_last(), base, theme, t);
    }
}

impl Highlighter for RegexHighlighter {
    fn highlight(&self, text: &mut Text)
        ensures
            final(text)@ == apply_hits(old(text)@, named_hits(self@.patterns, old(text)@.plain), self@.base_style, self@.theme, old(text)@.plain),
    {
        proof {
            use_type_invariant(self);
        }
        let t = text.chars().clone();
        let plain = text.plain_text();
        let ghost pats = self@.patterns;
        let ghost start = text@;
        let mut i: usize = 0;
        while i < self.highlights.len()
            invariant
                i <= self.highlights@.len(),
                pats == self@.patterns,
                pats.len() == self.highlights@.len(),
                forall|k: int| 0 <= k < self.highlights@.len() ==> regex_compiles(#[trigger] self.highlights@[k]@),
                t@ == start.plain,
                plain@ == start.plain,
                text@.plain == t@,
                text@ == apply_hits(start, named_hits(pats.take(i as int), t@), self@.base_style, self@.theme, t@),
            decreases self.highlights.len() - i,
        {
            let p = self.highlights[i].as_str();
            assert(pats[i as int] == p@);
            let names = group_names(p);
            let matches = match_groups(p, plain.as_str());
            let ghost nv = names_view(names@);
            let ghost mv = matches@.map_values(|m: Vec<Option<(usize, usize)>>| m@);
            let ghost before = text@;
            let mut k: usize = 0;
            while k < matches.len()
                invariant
                    k <= matches@.len(),
                    nv == names_view(names@),
                    mv == matches@.map_values(|m: Vec<Option<(usize, usize)>>| m@),
                    text@.plain == t@,
                    text@ == apply_hits(before, pattern_hits(nv, mv.take(k as int)), self@.base_style, self@.theme, t@),
                decreases matches.len() - k,
            {
                let ghost b2 = text@;
                apply_match(text, &names, &matches[k], &self.base_style, &self.theme, &t);
                proof {
                    assert(mv.take(k + 1).drop_last() =~= mv.take(k as int));
                    assert(mv.take(k + 1).last() == matches@[k as int]@);
                    assert(names@.len() == nv.len());
                    lemma_apply_hits_append(before, pattern_hits(nv, mv.take(k as int)), match_hits(nv, matches@[k as int]@, nv.len()), self@.base_style, self@.theme, t@);
                    lemma_apply_hits_plain(b2, match_hits(nv, matches@[k as int]@, nv.len()), self@.base_style, self@.theme, t@);
                }
                k = k + 1;
            }
            proof {
                assert(mv.take(k as int) =~= mv);
                assert(pats.take(i + 1).drop_last() =~= pats.take(i as int));
                assert(pats.take(i + 1).last() == p@);
                lemma_apply_hits_append(start, named_hits(pats.take(i as int), t@), pattern_hits(regex_group_names(p@), regex_match_groups(p@, t@)), self@.base_style, self@.theme, t@);
            }
            i = i + 1;
        }
        assert(pats.take(i as int) =~= pats);
    }
}

/// The pattern of the JSON highlighter: brackets, `true`/`false`/`null`, numbers and
/// strings, as named groups.
pub open spec fn json_pattern_spec() -> Seq<char> {
    join_bar(seq![
        r"(?P<brace>[\[\]{}()])"@,
        r"\b(?P<bool_true>true)\b|\b(?P<bool_false>false)\b|\b(?P<null>null)\b"@,
        r"(?P<number>\b\-?[0-9]+\.?[0-9]*(e[\-\+]?\d+?)?\b|0x[0-9a-fA-F]*)"@,
        r#"(?P<str>"[^"\\]*(?:\\.[^"\\]*)*")"#@,
    ])
}

/// The pattern of the JSON highlighter.
pub fn json_pattern() -> (r: String)
    ensures
        r@ == json_pattern_spec(),
{
    let parts = [
        r"(?P<brace>[\[\]{}()])",
        r"\b(?P<bool_true>true)\b|\b(?P<bool_false>false)\b|\b(?P<null>null)\b",
        r"(?P<number>\b\-?[0-9]+\.?[0-9]*(e[\-\+]?\d+?)?\b|0x[0-9a-fA-F]*)",
        r#"(?P<str>"[^"\\]*(?:\\.[^"\\]*)*")"#,
    ];
    let r = combine_regex(&parts);
    assert(strs_view(parts@) =~= seq![
        r"(?P<brace>[\[\]{}()])"@,
        r"\b(?P<bool_true>true)\b|\b(?P<bool_false>false)\b|\b(?P<null>null)\b"@,
        r"(?P<number>\b\-?[0-9]+\.?[0-9]*(e[\-\+]?\d+?)?\b|0x[0-9a-fA-F]*)"@,
        r#"(?P<str>"[^"\\]*(?:\\.[^"\\]*)*")"#@,
    ]);
    r
}

/// The highlighter for JSON: styles `json.brace`, `json.bool_true`, `json.bool_false`,
/// `json.null`, `json.number` and `json.str`, from the default theme.
pub fn json_highlighter() -> (r: RegexHighlighter)
    requires
        regex_compiles(json_pattern_spec()),
    ensures
        r@.patterns == seq![json_pattern_spec()],
        r@.base_style == "json."@,
        r@.theme == crate::theme::default_entries(),
{
    let p = json_pattern();
    let ps = [p.as_str()];
    assert(ps@[0]@ == json_pattern_spec());
    let r = RegexHighlighter::new(&ps, "json.");
    assert(strs_view(ps@) =~= seq![json_pattern_spec()]);
    r
}


/// The patterns of paths (Unix and Windows): the directory part and the file name.
pub open spec fn path_patterns_spec() -> Seq<Seq<char>> {
    seq![
        r#"(?P<path>(?:/[-\w._+]+)+/)(?P<filename>[-\w._+]*)"#@,
        r#"(?P<path>(?:[A-Za-z]:)?(?:\\[-\w._+]+)+\\)(?P<filename>[-\w._+]*)"#@,
    ]
}

/// The patterns of ISO 8601 dates, times and time zones.
pub open spec fn iso8601_patterns_spec() -> Seq<Seq<char>> {
    seq![
        r#"\b(?P<year>[0-9]{4})-(?P<month>1[0-2]|0[1-9])\b"#@,
        r#"\b(?P<date>(?P<year>[0-9]{4})(?P<month>1[0-2]|0[1-9])(?P<day>3[01]|0[1-9]|[12][0-9]))\b"#@,
        r#"\b(?P<date>(?P<year>[0-9]{4})-?(?P<day>36[0-6]|3[0-5][0-9]|[12][0-9]{2}|0[1-9][0-9]|00[1-9]))\b"#@,
        r#"\b(?P<date>(?P<year>[0-9]{4})-?W(?P<week>5[0-3]|[1-4][0-9]|0[1-9]))\b"#@,
        r#"\b(?P<date>(?P<year>[0-9]{4})-?W(?P<week>5[0-3]|[1-4][0-9]|0[1-9])-?(?P<day>[1-7]))\b"#@,
        r#"\b(?P<time>(?P<hour>2[0-3]|[01][0-9]):?(?P<minute>[0-5][0-9]))\b"#@,
        r#"\b(?P<time>(?P<hour>2[0-3]|[01][0-9])(?P<minute>[0-5][0-9])(?P<second>[0-5][0-9]))\b"#@,
        r#"(?P<timezone>Z|[+-](?:2[0-3]|[01][0-9])(?::?(?:[0-5][0-9]))?)\b"#@,
        r#"\b(?P<time>(?P<hour>2[0-3]|[01][0-9])(?P<minute>[0-5][0-9])(?P<second>[0-5][0-9]))(?P<timezone>Z|[+-](?:2[0-3]|[01][0-9])(?::?(?:[0-5][0-9]))?)"#@,
        r#"\b(?P<date>(?P<year>[0-9]{4})-(?P<month>1[0-2]|0[1-9])-(?P<day>3[01]|0[1-9]|[12][0-9]))[T ](?P<time>(?P<hour>2[0-3]|[01][0-9]):(?P<minute>[0-5][0-9]):(?P<second>[0-5][0-9]))"#@,
        r#"\b(?P<date>(?P<year>[0-9]{4})(?P<month>1[0-2]|0[1-9])(?P<day>3[01]|0[1-9]|[12][0-9]))[T ](?P<time>(?P<hour>2[0-3]|[01][0-9])(?P<minute>[0-5][0-9])(?P<second>[0-5][0-9]))"#@,
        r#"\b(?P<date>(?P<year>-?(?:[1-9][0-9]*)?[0-9]{4})-(?P<month>1[0-2]|0[1-9])-(?P<day>3[01]|0[1-9]|[12][0-9]))(?P<timezone>Z|[+-](?:2[0-3]|[01][0-9]):[0-5][0-9])?"#@,
        r#"\b(?P<time>(?P<hour>2[0-3]|[01][0-9]):(?P<minute>[0-5][0-9]):(?P<second>[0-5][0-9])(?P<frac>\.[0-9]+)?)(?P<timezone>Z|[+-](?:2[0-3]|[01][0-9]):[0-5][0-9])?"#@,
        r#"\b(?P<date>(?P<year>-?(?:[1-9][0-9]*)?[0-9]{4})-(?P<month>1[0-2]|0[1-9])-(?P<day>3[01]|0[1-9]|[12][0-9]))T(?P<time>(?P<hour>2[0-3]|[01][0-9]):(?P<minute>[0-5][0-9]):(?P<second>[0-5][0-9])(?P<ms>\.[0-9]+)?)(?P<timezone>Z|[+-](?:2[0-3]|[01][0-9]):[0-5][0-9])?"#@,
    ]
}

/// The patterns of literals in `repr` output, combined into one.
pub open spec fn repr_literals_spec() -> Seq<Seq<char>> {
    seq![
        r#"(?P<ipv4>[0-9]{1,3}\.[0-9]{1,3}\.[0-9]{1,3}\.[0-9]{1,3})"#@,
        r#"(?P<ipv6>([A-Fa-f0-9]{1,4}::?){1,7}[A-Fa-f0-9]{1,4})"#@,
        r#"(?P<eui64>(?:[0-9A-Fa-f]{1,2}-){7}[0-9A-Fa-f]{1,2}|(?:[0-9A-Fa-f]{1,2}:){7}[0-9A-Fa-f]{1,2}|(?:[0-9A-Fa-f]{4}\.){3}[0-9A-Fa-f]{4})"#@,
        r#"(?P<eui48>(?:[0-9A-Fa-f]{1,2}-){5}[0-9A-Fa-f]{1,2}|(?:[0-9A-Fa-f]{1,2}:){5}[0-9A-Fa-f]{1,2}|(?:[0-9A-Fa-f]{4}\.){2}[0-9A-Fa-f]{4})"#@,
        r#"(?P<uuid>[a-fA-F0-9]{8}-[a-fA-F0-9]{4}-[a-fA-F0-9]{4}-[a-fA-F0-9]{4}-[a-fA-F0-9]{12})"#@,
        r#"(?P<call>[\w.]*?)\("#@,
        r#"\b(?P<bool_true>True)\b|\b(?P<bool_false>False)\b|\b(?P<none>None)\b"#@,
        r#"(?P<ellipsis>\.\.\.)"#@,
        r#"(?P<number_complex>(?:\-?[0-9]+\.?[0-9]*(?:e[-+]?\d+?)?)(?:[-+](?:[0-9]+\.?[0-9]*(?:e[-+]?\d+)?))?j)"#@,
        r#"(?P<number>\b\-?[0-9]+\.?[0-9]*(e[-+]?\d+?)?\b|0x[0-9a-fA-F]*)"#@,
        r#"(?P<path>\B(/[-\w._+]+)*\/)(?P<filename>[-\w._+]*)?"#@,
        r#"(?P<str>b?'''.*?'''|b?'[^']*'|b?""".*?"""|b?"[^"]*")"#@,
        r#"(?P<url>(file|https|http|ws|wss)://[-0-9a-zA-Z$_+!`(),.?/;:&=%#~@]*)"#@,
    ]
}

/// The patterns of `repr` output: tags, attributes, braces, then the literals combined.
pub open spec fn repr_patterns_spec() -> Seq<Seq<char>> {
    seq![
        r#"(?P<tag_start><)(?P<tag_name>[-\w.:|]*)(?P<tag_contents>[\w\W]*?)(?P<tag_end>>)"#@,
        r#"(?P<attrib_name>[\w_]{1,50})=(?P<attrib_value>"?[\w_]+"?)?"#@,
        r#"(?P<brace>[\[\]{}()])"#@,
        join_bar(repr_literals_spec()),
    ]
}

/// Whether all patterns compile.
pub open spec fn all_compile(ps: Seq<Seq<char>>) -> bool {
    forall|i: int| 0 <= i < ps.len() ==> regex_compiles(#[trigger] ps[i])
}

/// The highlighter for paths, with `traceback.path` and `traceback.filename` styles.
pub fn path_highlighter() -> (r: RegexHighlighter)
    requires
        all_compile(path_patterns_spec()),
    ensures
        r@.patterns == path_patterns_spec(),
        r@.base_style == "traceback."@,
        r@.theme == crate::theme::default_entries(),
{
    let ps = [
        r#"(?P<path>(?:/[-\w._+]+)+/)(?P<filename>[-\w._+]*)"#,
        r#"(?P<path>(?:[A-Za-z]:)?(?:\\[-\w._+]+)+\\)(?P<filename>[-\w._+]*)"#,
    ];
    assert(strs_view(ps@) =~= path_patterns_spec());
    assert(forall|i: int| 0 <= i < ps@.len() ==> ps@[i]@ == #[trigger] strs_view(ps@)[i]);
    RegexHighlighter::new(&ps, "traceback.")
}

/// The highlighter for paths, when its patterns compile.
pub fn try_path_highlighter() -> (r: Option<RegexHighlighter>)
    ensures
        r is Some <==> all_compile(path_patterns_spec()),
        r is Some ==> r->0@.patterns == path_patterns_spec() && r->0@.base_style == "traceback."@,
{
    let ps = [
        r#"(?P<path>(?:/[-\w._+]+)+/)(?P<filename>[-\w._+]*)"#,
        r#"(?P<path>(?:[A-Za-z]:)?(?:\\[-\w._+]+)+\\)(?P<filename>[-\w._+]*)"#,
    ];
    assert(strs_view(ps@) =~= path_patterns_spec());
    assert(forall|i: int| 0 <= i < ps@.len() ==> ps@[i]@ == #[trigger] strs_view(ps@)[i]);
    match RegexHighlighter::try_new(&ps, "traceback.") {
        Ok(h) => Some(h),
        Err(_) => None,
    }
}

/// The highlighter for ISO 8601 dates and times, with `iso8601.` styles.
pub fn iso8601_highlighter() -> (r: RegexHighlighter)
    requires
        all_compile(iso8601_patterns_spec()),
    ensures
        r@.patterns == iso8601_patterns_spec(),
        r@.base_style == "iso8601."@,
        r@.theme == crate::theme::default_entries(),
{
    let ps = [
        r#"\b(?P<year>[0-9]{4})-(?P<month>1[0-2]|0[1-9])\b"#,
        r#"\b(?P<date>(?P<year>[0-9]{4})(?P<month>1[0-2]|0[1-9])(?P<day>3[01]|0[1-9]|[12][0-9]))\b"#,
        r#"\b(?P<date>(?P<year>[0-9]{4})-?(?P<day>36[0-6]|3[0-5][0-9]|[12][0-9]{2}|0[1-9][0-9]|00[1-9]))\b"#,
        r#"\b(?P<date>(?P<year>[0-9]{4})-?W(?P<week>5[0-3]|[1-4][0-9]|0[1-9]))\b"#,
        r#"\b(?P<date>(?P<year>[0-9]{4})-?W(?P<week>5[0-3]|[1-4][0-9]|0[1-9])-?(?P<day>[1-7]))\b"#,
        r#"\b(?P<time>(?P<hour>2[0-3]|[01][0-9]):?(?P<minute>[0-5][0-9]))\b"#,
        r#"\b(?P<time>(?P<hour>2[0-3]|[01][0-9])(?P<minute>[0-5][0-9])(?P<second>[0-5][0-9]))\b"#,
        r#"(?P<timezone>Z|[+-](?:2[0-3]|[01][0-9])(?::?(?:[0-5][0-9]))?)\b"#,
        r#"\b(?P<time>(?P<hour>2[0-3]|[01][0-9])(?P<minute>[0-5][0-9])(?P<second>[0-5][0-9]))(?P<timezone>Z|[+-](?:2[0-3]|[01][0-9])(?::?(?:[0-5][0-9]))?)"#,
        r#"\b(?P<date>(?P<year>[0-9]{4})-(?P<month>1[0-2]|0[1-9])-(?P<day>3[01]|0[1-9]|[12][0-9]))[T ](?P<time>(?P<hour>2[0-3]|[01][0-9]):(?P<minute>[0-5][0-9]):(?P<second>[0-5][0-9]))"#,
        r#"\b(?P<date>(?P<year>[0-9]{4})(?P<month>1[0-2]|0[1-9])(?P<day>3[01]|0[1-9]|[12][0-9]))[T ](?P<time>(?P<hour>2[0-3]|[01][0-9])(?P<minute>[0-5][0-9])(?P<second>[0-5][0-9]))"#,
        r#"\b(?P<date>(?P<year>-?(?:[1-9][0-9]*)?[0-9]{4})-(?P<month>1[0-2]|0[1-9])-(?P<day>3[01]|0[1-9]|[12][0-9]))(?P<timezone>Z|[+-](?:2[0-3]|[01][0-9]):[0-5][0-9])?"#,
        r#"\b(?P<time>(?P<hour>2[0-3]|[01][0-9]):(?P<minute>[0-5][0-9]):(?P<second>[0-5][0-9])(?P<frac>\.[0-9]+)?)(?P<timezone>Z|[+-](?:2[0-3]|[01][0-9]):[0-5][0-9])?"#,
        r#"\b(?P<date>(?P<year>-?(?:[1-9][0-9]*)?[0-9]{4})-(?P<month>1[0-2]|0[1-9])-(?P<day>3[01]|0[1-9]|[12][0-9]))T(?P<time>(?P<hour>2[0-3]|[01][0-9]):(?P<minute>[0-5][0-9]):(?P<second>[0-5][0-9])(?P<ms>\.[0-9]+)?)(?P<timezone>Z|[+-](?:2[0-3]|[01][0-9]):[0-5][0-9])?"#,
    ];
    assert(strs_view(ps@) =~= iso8601_patterns_spec());
    assert(forall|i: int| 0 <= i < ps@.len() ==> ps@[i]@ == #[trigger] strs_view(ps@)[i]);
    RegexHighlighter::new(&ps, "iso8601.")
}

/// The highlighter for ISO 8601 dates and times, when its patterns compile.
pub fn try_iso8601_highlighter() -> (r: Option<RegexHighlighter>)
    ensures
        r is Some <==> all_compile(iso8601_patterns_spec()),
        r is Some ==> r->0@.patterns == iso8601_patterns_spec() && r->0@.base_style == "iso8601."@,
{
    let ps = [
        r#"\b(?P<year>[0-9]{4})-(?P<month>1[0-2]|0[1-9])\b"#,
        r#"\b(?P<date>(?P<year>[0-9]{4})(?P<month>1[0-2]|0[1-9])(?P<day>3[01]|0[1-9]|[12][0-9]))\b"#,
        r#"\b(?P<date>(?P<year>[0-9]{4})-?(?P<day>36[0-6]|3[0-5][0-9]|[12][0-9]{2}|0[1-9][0-9]|00[1-9]))\b"#,
        r#"\b(?P<date>(?P<year>[0-9]{4})-?W(?P<week>5[0-3]|[1-4][0-9]|0[1-9]))\b"#,
        r#"\b(?P<date>(?P<year>[0-9]{4})-?W(?P<week>5[0-3]|[1-4][0-9]|0[1-9])-?(?P<day>[1-7]))\b"#,
        r#"\b(?P<time>(?P<hour>2[0-3]|[01][0-9]):?(?P<minute>[0-5][0-9]))\b"#,
        r#"\b(?P<time>(?P<hour>2[0-3]|[01][0-9])(?P<minute>[0-5][0-9])(?P<second>[0-5][0-9]))\b"#,
        r#"(?P<timezone>Z|[+-](?:2[0-3]|[01][0-9])(?::?(?:[0-5][0-9]))?)\b"#,
        r#"\b(?P<time>(?P<hour>2[0-3]|[01][0-9])(?P<minute>[0-5][0-9])(?P<second>[0-5][0-9]))(?P<timezone>Z|[+-](?:2[0-3]|[01][0-9])(?::?(?:[0-5][0-9]))?)"#,
        r#"\b(?P<date>(?P<year>[0-9]{4})-(?P<month>1[0-2]|0[1-9])-(?P<day>3[01]|0[1-9]|[12][0-9]))[T ](?P<time>(?P<hour>2[0-3]|[01][0-9]):(?P<minute>[0-5][0-9]):(?P<second>[0-5][0-9]))"#,
        r#"\b(?P<date>(?P<year>[0-9]{4})(?P<month>1[0-2]|0[1-9])(?P<day>3[01]|0[1-9]|[12][0-9]))[T ](?P<time>(?P<hour>2[0-3]|[01][0-9])(?P<minute>[0-5][0-9])(?P<second>[0-5][0-9]))"#,
        r#"\b(?P<date>(?P<year>-?(?:[1-9][0-9]*)?[0-9]{4})-(?P<month>1[0-2]|0[1-9])-(?P<day>3[01]|0[1-9]|[12][0-9]))(?P<timezone>Z|[+-](?:2[0-3]|[01][0-9]):[0-5][0-9])?"#,
        r#"\b(?P<time>(?P<hour>2[0-3]|[01][0-9]):(?P<minute>[0-5][0-9]):(?P<second>[0-5][0-9])(?P<frac>\.[0-9]+)?)(?P<timezone>Z|[+-](?:2[0-3]|[01][0-9]):[0-5][0-9])?"#,
        r#"\b(?P<date>(?P<year>-?(?:[1-9][0-9]*)?[0-9]{4})-(?P<month>1[0-2]|0[1-9])-(?P<day>3[01]|0[1-9]|[12][0-9]))T(?P<time>(?P<hour>2[0-3]|[01][0-9]):(?P<minute>[0-5][0-9]):(?P<second>[0-5][0-9])(?P<ms>\.[0-9]+)?)(?P<timezone>Z|[+-](?:2[0-3]|[01][0-9]):[0-5][0-9])?"#,
    ];
    assert(strs_view(ps@) =~= iso8601_patterns_spec());
    assert(forall|i: int| 0 <= i < ps@.len() ==> ps@[i]@ == #[trigger] strs_view(ps@)[i]);
    match RegexHighlighter::try_new(&ps, "iso8601.") {
        Ok(h) => Some(h),
        Err(_) => None,
    }
}

/// The literal part of the `repr` patterns, combined.
fn repr_literals() -> (r: String)
    ensures
        r@ == join_bar(repr_literals_spec()),
{
    let parts = [
        r#"(?P<ipv4>[0-9]{1,3}\.[0-9]{1,3}\.[0-9]{1,3}\.[0-9]{1,3})"#,
        r#"(?P<ipv6>([A-Fa-f0-9]{1,4}::?){1,7}[A-Fa-f0-9]{1,4})"#,
        r#"(?P<eui64>(?:[0-9A-Fa-f]{1,2}-){7}[0-9A-Fa-f]{1,2}|(?:[0-9A-Fa-f]{1,2}:){7}[0-9A-Fa-f]{1,2}|(?:[0-9A-Fa-f]{4}\.){3}[0-9A-Fa-f]{4})"#,
        r#"(?P<eui48>(?:[0-9A-Fa-f]{1,2}-){5}[0-9A-Fa-f]{1,2}|(?:[0-9A-Fa-f]{1,2}:){5}[0-9A-Fa-f]{1,2}|(?:[0-9A-Fa-f]{4}\.){2}[0-9A-Fa-f]{4})"#,
        r#"(?P<uuid>[a-fA-F0-9]{8}-[a-fA-F0-9]{4}-[a-fA-F0-9]{4}-[a-fA-F0-9]{4}-[a-fA-F0-9]{12})"#,
        r#"(?P<call>[\w.]*?)\("#,
        r#"\b(?P<bool_true>True)\b|\b(?P<bool_false>False)\b|\b(?P<none>None)\b"#,
        r#"(?P<ellipsis>\.\.\.)"#,
        r#"(?P<number_complex>(?:\-?[0-9]+\.?[0-9]*(?:e[-+]?\d+?)?)(?:[-+](?:[0-9]+\.?[0-9]*(?:e[-+]?\d+)?))?j)"#,
        r#"(?P<number>\b\-?[0-9]+\.?[0-9]*(e[-+]?\d+?)?\b|0x[0-9a-fA-F]*)"#,
        r#"(?P<path>\B(/[-\w._+]+)*\/)(?P<filename>[-\w._+]*)?"#,
        r#"(?P<str>b?'''.*?'''|b?'[^']*'|b?""".*?"""|b?"[^"]*")"#,
        r#"(?P<url>(file|https|http|ws|wss)://[-0-9a-zA-Z$_+!`(),.?/;:&=%#~@]*)"#,
    ];
    assert(strs_view(parts@) =~= repr_literals_spec());
    combine_regex(&parts)
}

/// The highlighter for `repr` output with a theme, with `repr.` styles.
pub fn repr_highlighter_with_theme(theme: Theme) -> (r: RegexHighlighter)
    requires
        all_compile(repr_patterns_spec()),
    ensures
        r@.patterns == repr_patterns_spec(),
        r@.base_style == "repr."@,
        r@.theme == theme@,
{
    let lits = repr_literals();
    let ps = [
        r#"(?P<tag_start><)(?P<tag_name>[-\w.:|]*)(?P<tag_contents>[\w\W]*?)(?P<tag_end>>)"#,
        r#"(?P<attrib_name>[\w_]{1,50})=(?P<attrib_value>"?[\w_]+"?)?"#,
        r#"(?P<brace>[\[\]{}()])"#,
        lits.as_str(),
    ];
    assert(strs_view(ps@) =~= repr_patterns_spec());
    assert(forall|i: int| 0 <= i < ps@.len() ==> ps@[i]@ == #[trigger] strs_view(ps@)[i]);
    RegexHighlighter::new(&ps, "repr.").with_theme(theme)
}

/// The highlighter for `repr` output with the default theme.
pub fn repr_highlighter() -> (r: RegexHighlighter)
    requires
        all_compile(repr_patterns_spec()),
    ensures
        r@.patterns == repr_patterns_spec(),
        r@.base_style == "repr."@,
        r@.theme == crate::theme::default_entries(),
{
    repr_highlighter_with_theme(Theme::default_theme())
}

/// The highlighter for `repr` output with a theme, when its patterns compile.
pub fn try_repr_highlighter_with_theme(theme: Theme) -> (r: Option<RegexHighlighter>)
    ensures
        r is Some <==> all_compile(repr_patterns_spec()),
        r is Some ==> r->0@.patterns == repr_patterns_spec() && r->0@.base_style == "repr."@ && r->0@.theme == theme@,
{
    let lits = repr_literals();
    let ps = [
        r#"(?P<tag_start><)(?P<tag_name>[-\w.:|]*)(?P<tag_contents>[\w\W]*?)(?P<tag_end>>)"#,
        r#"(?P<attrib_name>[\w_]{1,50})=(?P<attrib_value>"?[\w_]+"?)?"#,
        r#"(?P<brace>[\[\]{}()])"#,
        lits.as_str(),
    ];
    assert(strs_view(ps@) =~= repr_patterns_spec());
    assert(forall|i: int| 0 <= i < ps@.len() ==> ps@[i]@ == #[trigger] strs_view(ps@)[i]);
    match RegexHighlighter::try_new(&ps, "repr.") {
        Ok(h) => Some(h.with_theme(theme)),
        Err(_) => None,
    }
}

} // verus!
