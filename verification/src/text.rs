//! Text with styled spans: the plain characters, a base style, and spans that style
//! ranges of characters.
use vstd::prelude::*;
use crate::style::{Style, combine_spec};
use crate::console::{Console, ConsoleOptions, JustifyMethod, OverflowMethod, OptionsModel};
use crate::measure::{Measurement, measure_text};
use crate::segment::{ControlType, Segment, SegView, seg_view, segs_view, segs_text};
use crate::wrap::{SChar, vv, split_sc, split_sc_exec, divide_line, divide_styled, rstrip_end_spec, rstrip_end_exec,
    justify_lines, justify_lines_exec, truncate_spec, truncate_exec, sub_schars, style_opt_eq};
use crate::Renderable;
use crate::strs::{owned, str_chars, string_from_chars, str_eq};

verus! {

broadcast use vstd::string::group_string_axioms;

/// A value attached to a metadata tag.
#[derive(Debug, Clone, PartialEq, Eq)]
pub enum MetaValue {
    /// No value.
    Null,
    /// A text value.
    Str(String),
}

/// Named metadata values (a later entry for a name shadows an earlier one).
#[derive(Debug, Clone, PartialEq, Eq)]
pub struct MetaMap {
    /// The entries, in the order they were added.
    pub entries: Vec<(String, MetaValue)>,
}

impl MetaMap {
    /// An empty map.
    pub fn new() -> (r: Self)
        ensures
            r.entries@.len() == 0,
    {
        MetaMap { entries: Vec::new() }
    }

    /// Number of entries.
    pub fn len(&self) -> (r: usize)
        ensures
            r == self.entries@.len(),
    {
        self.entries.len()
    }

    /// Add a value under a name.
    pub fn insert(&mut self, key: &str, value: MetaValue)
        ensures
            final(self).entries@.len() == old(self).entries@.len() + 1,
            final(self).entries@.last().0@ == key@,
            final(self).entries@.last().1 == value,
            final(self).entries@.drop_last() == old(self).entries@,
    {
        self.entries.push((owned(key), value));
    }

    /// The value under a name, the latest entry first.
    pub fn get(&self, key: &str) -> (r: Option<&MetaValue>)
        ensures
            r is None ==> forall|i: int| 0 <= i < self.entries@.len() ==> self.entries@[i].0@ != key@,
            r matches Some(v) ==> exists|i: int|
                0 <= i < self.entries@.len() && self.entries@[i].0@ == key@ && self.entries@[i].1 == *v
                && forall|j: int| i < j < self.entries@.len() ==> self.entries@[j].0@ != key@,
    {
        let mut i: usize = self.entries.len();
        while i > 0
            invariant
                i <= self.entries.len(),
                forall|j: int| i <= j < self.entries@.len() ==> self.entries@[j].0@ != key@,
            decreases i,
        {
            if str_eq(self.entries[i - 1].0.as_str(), key) {
                return Some(&self.entries[i - 1].1);
            }
            i = i - 1;
        }
        None
    }
}

/// Extra information carried by a span: a hyperlink, or named metadata.
#[derive(Debug, Clone, PartialEq, Eq)]
pub struct StyleMeta {
    /// The target of a hyperlink.
    pub link: Option<String>,
    /// Named metadata values.
    pub meta: Option<MetaMap>,
}

impl StyleMeta {
    /// Metadata holding a hyperlink.
    pub fn with_link(url: &str) -> (r: Self)
        ensures
            r.link matches Some(l) && l@ == url@,
            r.meta is None,
    {
        StyleMeta { link: Some(owned(url)), meta: None }
    }
}

/// A style applied to the characters `start..end` of a text.
#[derive(Debug, Clone, PartialEq, Eq)]
pub struct Span {
    /// First character.
    pub start: usize,
    /// One past the last character.
    pub end: usize,
    /// The style.
    pub style: Style,
    /// Link or metadata.
    pub meta: Option<StyleMeta>,
}

/// A span as the values that rendering reads.
pub type SpanView = (usize, usize, Style);

/// The value of a span.
pub open spec fn span_view(s: Span) -> SpanView {
    (s.start, s.end, s.style)
}

/// The values of spans.
pub open spec fn spans_view(v: Seq<Span>) -> Seq<SpanView> {
    v.map_values(|s: Span| span_view(s))
}

impl Span {
    /// A span of a style.
    pub fn new(start: usize, end: usize, style: Style) -> (r: Self)
        ensures
            span_view(r) == (start, end, style),
            r.meta is None,
    {
        Span { start, end, style, meta: None }
    }

    /// A span of a style with link or metadata.
    pub fn new_with_meta(start: usize, end: usize, style: Style, meta: Option<StyleMeta>) -> (r: Self)
        ensures
            span_view(r) == (start, end, style),
            r.meta == meta,
    {
        Span { start, end, style, meta }
    }
}

/// The style of character `i` given a base style and spans applied in order.
pub open spec fn style_at(base: Option<Style>, spans: Seq<SpanView>, i: int) -> Option<Style>
    decreases spans.len(),
{
    if spans.len() == 0 {
        base
    } else {
        let acc = style_at(base, spans.drop_last(), i);
        let s = spans.last();
        if s.0 <= i < s.1 {
            match acc {
                Some(a) => Some(combine_spec(a, s.2)),
                None => Some(s.2),
            }
        } else {
            acc
        }
    }
}

/// The styles of the characters `0..n`.
pub open spec fn styles_of(base: Option<Style>, spans: Seq<SpanView>, n: nat) -> Seq<Option<Style>> {
    Seq::new(n, |i: int| style_at(base, spans, i))
}

/// Text with a base style, styled spans and rendering preferences.
#[derive(Debug, Clone)]
pub struct Text {
    chars: Vec<char>,
    style: Option<Style>,
    spans: Vec<Span>,
    justify: Option<JustifyMethod>,
    overflow: Option<OverflowMethod>,
    no_wrap: Option<bool>,
}

/// The values that make up a text.
pub struct TextModel {
    /// The characters.
    pub plain: Seq<char>,
    /// The base style.
    pub style: Option<Style>,
    /// The spans, in the order they apply.
    pub spans: Seq<SpanView>,
    /// Justification, where the text sets one.
    pub justify: Option<JustifyMethod>,
    /// Overflow handling, where the text sets one.
    pub overflow: Option<OverflowMethod>,
    /// Whether wrapping is off, where the text says.
    pub no_wrap: Option<bool>,
}

/// Text of the given characters in one base style (or none), with no spans and no
/// settings of its own.
pub open spec fn plain_model(plain: Seq<char>, style: Option<Style>) -> TextModel {
    TextModel { plain, style, spans: Seq::empty(), justify: None, overflow: None, no_wrap: None }
}

impl View for Text {
    type V = TextModel;

    closed spec fn view(&self) -> TextModel {
        TextModel {
            plain: self.chars@,
            style: self.style,
            spans: spans_view(self.spans@),
            justify: self.justify,
            overflow: self.overflow,
            no_wrap: self.no_wrap,
        }
    }
}

impl Text {
    /// The spans of the text, with their links and metadata.
    pub closed spec fn span_values(&self) -> Seq<Span> {
        self.spans@
    }

    /// Empty text.
    pub fn new() -> (r: Self)
        ensures
            r.span_values() == Seq::<Span>::empty(),
            r@.plain.len() == 0,
            r@.style is None,
            r@.spans.len() == 0,
            r@.justify is None,
            r@.overflow is None,
            r@.no_wrap is None,
    {
        Text { chars: Vec::new(), style: None, spans: Vec::new(), justify: None, overflow: None, no_wrap: None }
    }

    /// Unstyled text.
    pub fn plain(text: &str) -> (r: Self)
        ensures
            r.span_values() == Seq::<Span>::empty(),
            r@.plain == text@,
            r@.style is None,
            r@.spans.len() == 0,
            r@.justify is None,
            r@.overflow is None,
            r@.no_wrap is None,
            r@ == plain_model(text@, None),
    {
        let t = Text { chars: str_chars(text), style: None, spans: Vec::new(), justify: None, overflow: None, no_wrap: None };
        assert(t@.spans =~= Seq::<SpanView>::empty());
        t
    }

    /// Text in one style.
    pub fn styled(text: &str, style: Style) -> (r: Self)
        ensures
            r.span_values() == Seq::<Span>::empty(),
            r@.plain == text@,
            r@.style == Some(style),
            r@.spans.len() == 0,
            r@.justify is None,
            r@.overflow is None,
            r@.no_wrap is None,
            r@ == plain_model(text@, Some(style)),
    {
        let t = Text { chars: str_chars(text), style: Some(style), spans: Vec::new(), justify: None, overflow: None, no_wrap: None };
        assert(t@.spans =~= Seq::<SpanView>::empty());
        t
    }

    /// The characters as a string.
    pub fn plain_text(&self) -> (r: String)
        ensures
            r@ == self@.plain,
    {
        string_from_chars(self.chars.as_slice())
    }

    /// The characters.
    pub fn chars(&self) -> (r: &Vec<char>)
        ensures
            r@ == self@.plain,
    {
        &self.chars
    }

    /// Number of characters.
    pub fn len(&self) -> (r: usize)
        ensures
            r == self@.plain.len(),
    {
        self.chars.len()
    }

    /// Whether there are no characters.
    pub fn is_empty(&self) -> (r: bool)
        ensures
            r == (self@.plain.len() == 0),
    {
        self.chars.len() == 0
    }

    /// The spans.
    pub fn spans(&self) -> (r: &Vec<Span>)
        ensures
            spans_view(r@) == self@.spans,
            r@ == self.span_values(),
    {
        &self.spans
    }

    /// The base style.
    pub fn style(&self) -> (r: Option<Style>)
        ensures
            r == self@.style,
    {
        self.style
    }

    /// Set the base style.
    pub fn set_style(&mut self, style: Option<Style>)
        ensures
            final(self)@ == (TextModel { style, ..old(self)@ }),
    {
        self.style = style;
    }

    /// Justification of the text.
    pub fn justify(&self) -> (r: Option<JustifyMethod>)
        ensures
            r == self@.justify,
    {
        self.justify
    }

    /// Overflow handling of the text.
    pub fn overflow(&self) -> (r: Option<OverflowMethod>)
        ensures
            r == self@.overflow,
    {
        self.overflow
    }

    /// Whether wrapping is off.
    pub fn no_wrap(&self) -> (r: Option<bool>)
        ensures
            r == self@.no_wrap,
    {
        self.no_wrap
    }

    /// The text with a justification.
    pub fn with_justify(self, justify: JustifyMethod) -> (r: Self)
        ensures
            r@ == (TextModel { justify: Some(justify), ..self@ }),
    {
        Text { justify: Some(justify), ..self }
    }

    /// The text with an overflow method.
    pub fn with_overflow(self, overflow: OverflowMethod) -> (r: Self)
        ensures
            r@ == (TextModel { overflow: Some(overflow), ..self@ }),
    {
        Text { overflow: Some(overflow), ..self }
    }

    /// The text with wrapping switched on or off.
    pub fn with_no_wrap(self, no_wrap: bool) -> (r: Self)
        ensures
            r@ == (TextModel { no_wrap: Some(no_wrap), ..self@ }),
    {
        Text { no_wrap: Some(no_wrap), ..self }
    }

    /// Append a string, styling it with a span when a style is given.
    pub fn append(&mut self, text: &str, style: Option<Style>)
        requires
            old(self)@.plain.len() + text@.len() <= usize::MAX,
        ensures
            style is None ==> final(self).span_values() == old(self).span_values(),
            final(self)@.plain == old(self)@.plain + text@,
            final(self)@.style == old(self)@.style,
            final(self)@.justify == old(self)@.justify,
            final(self)@.overflow == old(self)@.overflow,
            final(self)@.no_wrap == old(self)@.no_wrap,
            final(self)@.spans == (match style {
                Some(s) => if text@.len() > 0 {
                    old(self)@.spans.push((old(self)@.plain.len() as usize, (old(self)@.plain.len() + text@.len()) as usize, s))
                } else {
                    old(self)@.spans
                },
                None => old(self)@.spans,
            }),
    {
        let start = self.chars.len();
        let cs = str_chars(text);
        let ghost old_chars = self.chars@;
        let mut i: usize = 0;
        while i < cs.len()
            invariant
                i <= cs.len(),
                cs@ == text@,
                old_chars.len() + cs@.len() <= usize::MAX,
                self.chars@ == old_chars + cs@.take(i as int),
                self.spans@ == old(self).spans@,
                self.style == old(self).style,
                self.justify == old(self).justify,
                self.overflow == old(self).overflow,
                self.no_wrap == old(self).no_wrap,
                start == old_chars.len(),
            decreases cs.len() - i,
        {
            self.chars.push(cs[i]);
            assert(cs@.take(i + 1) =~= cs@.take(i as int).push(cs@[i as int]));
            i = i + 1;
        }
        assert(cs@.take(i as int) =~= cs@);
        if let Some(s) = style {
            if cs.len() > 0 {
                let end = self.chars.len();
                self.spans.push(Span::new(start, end, s));
                assert(spans_view(self.spans@) =~= spans_view(old(self).spans@).push((start, end, s)));
            }
        }
    }

    /// Append a span.
    pub fn push_span(&mut self, span: Span)
        ensures
            final(self)@ == (TextModel { spans: old(self)@.spans.push(span_view(span)), ..old(self)@ }),
            final(self).span_values() == old(self).span_values().push(span),
    {
        let ghost sv = span_view(span);
        self.spans.push(span);
        assert(spans_view(self.spans@) =~= spans_view(old(self).spans@).push(sv));
    }

    /// Apply a style to the characters `start..end` (cut to the text's length); nothing
    /// when the range is empty.
    pub fn stylize(&mut self, start: usize, end: usize, style: Style)
        ensures
            ({
                let n = old(self)@.plain.len();
                let e = if end as nat > n { n } else { end as nat };
                final(self)@ == if start < e {
                    TextModel { spans: old(self)@.spans.push((start, e as usize, style)), ..old(self)@ }
                } else {
                    old(self)@
                }
            }),
    {
        let n = self.chars.len();
        let e = if end > n { n } else { end };
        if start < e {
            self.push_span(Span::new(start, e, style));
        }
    }

    /// The style of each character.
    pub fn char_styles(&self) -> (r: Vec<Option<Style>>)
        ensures
            r@ == styles_of(self@.style, self@.spans, self@.plain.len()),
    {
        let n = self.chars.len();
        let mut out: Vec<Option<Style>> = Vec::new();
        let mut i: usize = 0;
        while i < n
            invariant
                i <= n,
                n == self@.plain.len(),
                out@ =~= styles_of(self@.style, self@.spans, i as nat),
            decreases n - i,
        {
            let st = self.style_at_index(i);
            out.push(st);
            i = i + 1;
        }
        out
    }

    fn style_at_index(&self, i: usize) -> (r: Option<Style>)
        ensures
            r == style_at(self@.style, self@.spans, i as int),
    {
        let mut acc = self.style;
        let mut k: usize = 0;
        while k < self.spans.len()
            invariant
                k <= self.spans.len(),
                acc == style_at(self@.style, self@.spans.take(k as int), i as int),
            decreases self.spans.len() - k,
        {
            let sp = &self.spans[k];
            proof {
                assert(self@.spans.take(k + 1).drop_last() =~= self@.spans.take(k as int));
                assert(self@.spans.take(k + 1).last() == span_view(*sp));
            }
            if sp.start <= i && i < sp.end {
                acc = match acc {
                    Some(a) => Some(a.combine(&sp.style)),
                    None => Some(sp.style),
                };
            }
            k = k + 1;
        }
        assert(self@.spans.take(k as int) =~= self@.spans);
        acc
    }
}

impl Default for Text {
    fn default() -> (r: Self)
        ensures
            r@.plain.len() == 0,
            r@.style is None,
            r@.spans.len() == 0,
            r@.justify is None,
            r@.overflow is None,
            r@.no_wrap is None,
    {
        Text::new()
    }
}

/// The characters of a text with their styles.
pub open spec fn styled_chars(t: TextModel) -> Seq<SChar> {
    Seq::new(t.plain.len(), |i: int| (t.plain[i], style_at(t.style, t.spans, i)))
}

/// The paragraphs of styled characters: the pieces between newlines, without an empty
/// piece after a final newline.
pub open spec fn paragraphs(sc: Seq<SChar>) -> Seq<Seq<SChar>> {
    let p = split_sc(sc, '\n');
    if p.len() > 1 && p.last().len() == 0 { p.drop_last() } else { p }
}

/// The lines of one paragraph: wrapped (unless wrapping is off), trailing space beyond
/// the width dropped, justified, and cut to the width.
pub open spec fn wrap_paragraph(p: Seq<SChar>, width: nat, j: JustifyMethod, ov: OverflowMethod, no_wrap: bool, base: Option<Style>) -> Seq<Seq<SChar>> {
    let ls = if no_wrap { seq![p] } else { divide_line(p, width, ov == OverflowMethod::Fold) };
    let ls2 = ls.map_values(|l: Seq<SChar>| rstrip_end_spec(l, width));
    let ls3 = justify_lines(ls2, width, j, ov, base);
    ls3.map_values(|l: Seq<SChar>| truncate_spec(l, width, ov, base, false))
}

/// The lines of all paragraphs, in order.
pub open spec fn all_lines(ps: Seq<Seq<SChar>>, width: nat, j: JustifyMethod, ov: OverflowMethod, no_wrap: bool, base: Option<Style>) -> Seq<Seq<SChar>>
    decreases ps.len(),
{
    if ps.len() == 0 {
        Seq::empty()
    } else {
        all_lines(ps.drop_last(), width, j, ov, no_wrap, base) + wrap_paragraph(ps.last(), width, j, ov, no_wrap, base)
    }
}

/// The lines that a text renders to at a width.
pub open spec fn text_lines(t: TextModel, width: nat, j: JustifyMethod, ov: OverflowMethod, no_wrap: bool) -> Seq<Seq<SChar>> {
    all_lines(paragraphs(styled_chars(t)), width, j, ov, no_wrap, t.style)
}

/// Styled characters as segments: each run of characters in one style is a segment.
pub open spec fn runs(s: Seq<SChar>) -> Seq<SegView>
    decreases s.len(),
{
    if s.len() == 0 {
        Seq::empty()
    } else {
        let r = runs(s.drop_last());
        let c = s.last();
        if r.len() > 0 && r.last().1 == c.1 {
            r.update(r.len() - 1, (r.last().0.push(c.0), c.1, None::<ControlType>))
        } else {
            r.push((seq![c.0], c.1, None::<ControlType>))
        }
    }
}

/// Lines as segments, a newline segment between two lines.
pub open spec fn lines_segments(lines: Seq<Seq<SChar>>) -> Seq<SegView>
    decreases lines.len(),
{
    if lines.len() == 0 {
        Seq::empty()
    } else if lines.len() == 1 {
        runs(lines[0])
    } else {
        lines_segments(lines.drop_last()) + seq![(seq!['\n'], None::<Style>, None::<ControlType>)] + runs(lines.last())
    }
}

/// The justification a text renders with: its own, else the options', else the default.
pub open spec fn resolve_justify(t: TextModel, o: OptionsModel) -> JustifyMethod {
    match t.justify {
        Some(j) => j,
        None => match o.justify { Some(j) => j, None => JustifyMethod::Default },
    }
}

/// The overflow method a text renders with: its own, else the options', else fold.
pub open spec fn resolve_overflow(t: TextModel, o: OptionsModel) -> OverflowMethod {
    match t.overflow {
        Some(v) => v,
        None => match o.overflow { Some(v) => v, None => OverflowMethod::Fold },
    }
}

/// Whether a text renders without wrapping: its own setting, else the options'.
pub open spec fn resolve_no_wrap(t: TextModel, o: OptionsModel) -> bool {
    match t.no_wrap {
        Some(v) => v,
        None => o.no_wrap,
    }
}

/// The segments a text renders to on options.
pub open spec fn render_text_spec(t: TextModel, o: OptionsModel) -> Seq<SegView> {
    lines_segments(text_lines(t, o.max_width as nat, resolve_justify(t, o), resolve_overflow(t, o), resolve_no_wrap(t, o)))
}

/// Styled characters as segments, one per run of a style.
pub fn runs_exec(s: &Vec<SChar>) -> (r: Vec<Segment>)
    ensures
        segs_view(r@) == runs(s@),
{
    let mut done: Vec<Segment> = Vec::new();
    let mut cur = String::new();
    let mut cur_style: Option<Style> = None;
    let mut i: usize = 0;
    while i < s.len()
        invariant
            i <= s.len(),
            runs(s@.take(i as int)) == segs_view(done@) + (if cur@.len() > 0 {
                seq![(cur@, cur_style, None::<ControlType>)]
            } else {
                Seq::<SegView>::empty()
            }),
            i == 0 ==> done@.len() == 0 && cur@.len() == 0,
            i > 0 ==> cur@.len() > 0,
        decreases s.len() - i,
    {
        let c = s[i];
        proof {
            assert(s@.take(i + 1).drop_last() =~= s@.take(i as int));
            assert(s@.take(i + 1).last() == c);
        }
        let ghost r0 = runs(s@.take(i as int));
        if cur.as_str().is_empty() {
            assert(i == 0);
            assert(r0.len() == 0);
            cur.push(c.0);
            cur_style = c.1;
            assert(cur@ =~= seq![c.0]);
            assert(segs_view(done@) =~= Seq::<SegView>::empty());
            assert(runs(s@.take(i + 1)) =~= segs_view(done@) + seq![(cur@, cur_style, None::<ControlType>)]);
        } else if style_opt_eq(cur_style, c.1) {
            let ghost old_cur = cur@;
            assert(r0.last() == (old_cur, cur_style, None::<ControlType>));
            cur.push(c.0);
            assert(runs(s@.take(i + 1)) == r0.update(r0.len() - 1, (old_cur.push(c.0), c.1, None::<ControlType>)));
            assert(runs(s@.take(i + 1)) =~= segs_view(done@) + seq![(cur@, cur_style, None::<ControlType>)]);
        } else {
            let ghost old_cur = cur@;
            let ghost old_style = cur_style;
            assert(r0.last() == (old_cur, cur_style, None::<ControlType>));
            let finished = Segment { text: cur, style: cur_style, control: None, link: None };
            let ghost dv = segs_view(done@);
            done.push(finished);
            assert(segs_view(done@) =~= dv.push((old_cur, old_style, None::<ControlType>)));
            cur = String::new();
            cur.push(c.0);
            cur_style = c.1;
            assert(runs(s@.take(i + 1)) =~= segs_view(done@) + seq![(cur@, cur_style, None::<ControlType>)]);
        }
        i = i + 1;
    }
    assert(s@.take(i as int) =~= s@);
    if !cur.as_str().is_empty() {
        let ghost dv = segs_view(done@);
        let ghost cv = cur@;
        done.push(Segment { text: cur, style: cur_style, control: None, link: None });
        assert(segs_view(done@) =~= dv + seq![(cv, cur_style, None::<ControlType>)]);
    } else {
        assert(segs_view(done@) =~= segs_view(done@) + Seq::<SegView>::empty());
    }
    done
}

impl Text {
    /// The characters with their styles.
    pub fn styled_char_vec(&self) -> (r: Vec<SChar>)
        ensures
            r@ == styled_chars(self@),
    {
        let styles = self.char_styles();
        let mut out: Vec<SChar> = Vec::new();
        let mut i: usize = 0;
        while i < self.chars.len()
            invariant
                i <= self.chars.len(),
                styles@ == styles_of(self@.style, self@.spans, self@.plain.len()),
                out@ =~= styled_chars(self@).take(i as int),
            decreases self.chars.len() - i,
        {
            out.push((self.chars[i], styles[i]));
            i = i + 1;
        }
        assert(styled_chars(self@).take(i as int) =~= styled_chars(self@));
        out
    }

    /// The lines the text renders to at a width, with the given justification,
    /// overflow method and wrapping.
    pub fn lines_at(&self, width: usize, j: JustifyMethod, ov: OverflowMethod, no_wrap: bool) -> (r: Vec<Vec<SChar>>)
        ensures
            vv(r@) == text_lines(self@, width as nat, j, ov, no_wrap),
    {
        let sc = self.styled_char_vec();
        let mut ps = split_sc_exec(&sc, '\n');
        if ps.len() > 1 && ps[ps.len() - 1].len() == 0 {
            let _ = ps.pop();
        }
        let ghost pv = paragraphs(styled_chars(self@));
        assert(vv(ps@) =~= pv);
        let mut out: Vec<Vec<SChar>> = Vec::new();
        let mut i: usize = 0;
        while i < ps.len()
            invariant
                i <= ps.len(),
                vv(ps@) == pv,
                vv(out@) =~= all_lines(pv.take(i as int), width as nat, j, ov, no_wrap, self@.style),
            decreases ps.len() - i,
        {
            let p = &ps[i];
            let ls = if no_wrap {
                let mut one: Vec<Vec<SChar>> = Vec::new();
                one.push(sub_schars(p, 0, p.len()));
                assert(one@[0]@ =~= p@);
                assert(vv(one@) =~= seq![p@]);
                one
            } else {
                divide_styled(p, width, ov == OverflowMethod::Fold)
            };
            let ghost lsv = vv(ls@);
            let mut ls2: Vec<Vec<SChar>> = Vec::new();
            let mut k: usize = 0;
            while k < ls.len()
                invariant
                    k <= ls.len(),
                    lsv == vv(ls@),
                    vv(ls2@) =~= lsv.take(k as int).map_values(|l: Seq<SChar>| rstrip_end_spec(l, width as nat)),
                decreases ls.len() - k,
            {
                let ghost b = vv(ls2@);
                ls2.push(rstrip_end_exec(&ls[k], width));
                assert(vv(ls2@) =~= b.push(rstrip_end_spec(lsv[k as int], width as nat)));
                assert(lsv.take(k + 1).map_values(|l: Seq<SChar>| rstrip_end_spec(l, width as nat))
                    =~= lsv.take(k as int).map_values(|l: Seq<SChar>| rstrip_end_spec(l, width as nat)).push(rstrip_end_spec(lsv[k as int], width as nat)));
                k = k + 1;
            }
            assert(lsv.take(k as int) =~= lsv);
            let ls3 = justify_lines_exec(&ls2, width, j, ov, self.style);
            let ghost l3v = vv(ls3@);
            let ghost before = vv(out@);
            let mut k2: usize = 0;
            while k2 < ls3.len()
                invariant
                    k2 <= ls3.len(),
                    l3v == vv(ls3@),
                    vv(out@) =~= before + l3v.take(k2 as int).map_values(|l: Seq<SChar>| truncate_spec(l, width as nat, ov, self@.style, false)),
                decreases ls3.len() - k2,
            {
                let ghost b = vv(out@);
                out.push(truncate_exec(&ls3[k2], width, ov, self.style, false));
                assert(vv(out@) =~= b.push(truncate_spec(l3v[k2 as int], width as nat, ov, self@.style, false)));
                assert(l3v.take(k2 + 1).map_values(|l: Seq<SChar>| truncate_spec(l, width as nat, ov, self@.style, false))
                    =~= l3v.take(k2 as int).map_values(|l: Seq<SChar>| truncate_spec(l, width as nat, ov, self@.style, false)).push(truncate_spec(l3v[k2 as int], width as nat, ov, self@.style, false)));
                k2 = k2 + 1;
            }
            assert(l3v.take(k2 as int) =~= l3v);
            assert(pv.take(i + 1).drop_last() =~= pv.take(i as int));
            assert(pv.take(i + 1).last() == p@);
            i = i + 1;
        }
        assert(pv.take(i as int) =~= pv);
        out
    }

    /// The measurement of the text: its widest word and its widest line.
    pub fn measure_plain(&self) -> (r: Measurement)
        ensures
            r == measure_text(self@.plain),
    {
        let s = string_from_chars(self.chars.as_slice());
        let mut v: Vec<Segment> = Vec::new();
        v.push(Segment::from_string(s, None));
        proof {
            assert(segs_view(v@).drop_last() =~= Seq::<SegView>::empty());
            assert(segs_view(v@).last().0 == self@.plain);
            assert(segs_text(segs_view(v@)) == segs_text(Seq::<SegView>::empty()) + self@.plain);
            assert(segs_text(segs_view(v@)) =~= self@.plain);
        }
        Measurement::from_segments(&v)
    }
}

/// Lines as segments with a newline segment between two lines.
pub fn lines_to_segments(lines: &Vec<Vec<SChar>>) -> (r: Vec<Segment>)
    ensures
        segs_view(r@) == lines_segments(vv(lines@)),
{
    let ghost lv = vv(lines@);
    let mut out: Vec<Segment> = Vec::new();
    let mut i: usize = 0;
    while i < lines.len()
        invariant
            i <= lines.len(),
            lv == vv(lines@),
            segs_view(out@) == lines_segments(lv.take(i as int)),
        decreases lines.len() - i,
    {
        let ghost before = segs_view(out@);
        if i > 0 {
            out.push(Segment::line());
        }
        let rs = runs_exec(&lines[i]);
        let mut k: usize = 0;
        let ghost mid = segs_view(out@);
        while k < rs.len()
            invariant
                k <= rs.len(),
                segs_view(out@) =~= mid + segs_view(rs@.take(k as int)),
            decreases rs.len() - k,
        {
            let ghost ob = segs_view(out@);
            out.push(rs[k].copy());
            assert(segs_view(out@) =~= ob.push(seg_view(rs@[k as int])));
            assert(segs_view(rs@.take(k + 1)) =~= segs_view(rs@.take(k as int)).push(seg_view(rs@[k as int])));
            k = k + 1;
        }
        assert(rs@.take(k as int) =~= rs@);
        proof {
            let t = lv.take(i + 1);
            assert(t.drop_last() =~= lv.take(i as int));
            assert(t.last() == lines@[i as int]@);
            if i == 0 {
                assert(t.len() == 1);
                assert(segs_view(out@) =~= runs(t[0]));
            } else {
                assert(segs_view(out@) =~= before + seq![(seq!['\n'], None::<Style>, None::<ControlType>)] + runs(t.last()));
            }
        }
        i = i + 1;
    }
    assert(lv.take(i as int) =~= lv);
    out
}

impl Renderable for Text {
    open spec fn rendered(&self, o: crate::console::OptionsModel) -> Seq<crate::segment::SegView> {
        render_text_spec(self@, o)
    }

    open spec fn measured(&self, o: crate::console::OptionsModel) -> Measurement {
        measure_text(self@.plain)
    }

    fn render(&self, console: &Console, options: &ConsoleOptions) -> (r: Vec<Segment>)
    {
        let j = match self.justify {
            Some(j) => j,
            None => match options.justify { Some(j) => j, None => JustifyMethod::Default },
        };
        let ov = match self.overflow {
            Some(v) => v,
            None => match options.overflow { Some(v) => v, None => OverflowMethod::Fold },
        };
        let nw = match self.no_wrap {
            Some(v) => v,
            None => options.no_wrap,
        };
        let lines = self.lines_at(options.max_width, j, ov, nw);
        lines_to_segments(&lines)
    }

    fn measure(&self, console: &Console, options: &ConsoleOptions) -> (r: Measurement)
    {
        self.measure_plain()
    }
}

impl Text {
    /// Text from markup (see `markup::render`).
    pub fn from_markup(markup: &str, emoji: bool) -> (r: Result<Text, crate::error::ParseError>)
        requires
            crate::markup::utf8_width(markup@) <= usize::MAX,
        ensures
            match (r, crate::markup::render_spec(markup@)) {
                (Ok(t), Ok((text, spans))) => t@.plain == text && crate::markup::spans_m(t.span_values()) == spans
                    && t@.style is None && t@.justify is None && t@.overflow is None && t@.no_wrap is None,
                (Err(e), Err(m)) => e matches crate::error::ParseError::UnexpectedClosingTag(x) && x@ == m,
                _ => false,
            },
    {
        crate::markup::render(markup, emoji)
    }
}

} // verus!
