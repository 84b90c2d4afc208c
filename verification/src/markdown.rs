//! Markdown: text in Markdown laid out for the terminal (headings, paragraphs with
//! inline styles, code blocks, quotes, lists, tables, rules).
use vstd::prelude::*;
use crate::Renderable;
use crate::color::SimpleColor;
use crate::console::{Console, ConsoleOptions, JustifyMethod};
use crate::measure::{Measurement, measure_text, union_all, union_measurements};
use crate::padding::{PaddingDimensions, unpack_spec};
use crate::segment::{Segment, SegView, ControlType, segs_view, split_lines_spec, lines_view, segs_text};
use crate::strs::owned;
use crate::style::{Style, null_style, combine_spec};
use crate::md_render::{MdContext, blocks_run, start_ctx, nl, render_blocks, PadOpt};
use vstd::std_specs::convert::IntoSpec;

verus! {

broadcast use vstd::string::group_string_axioms;

/// The style of level-one headings: bold, underlined.
pub open spec fn heading1_style() -> Style {
    Style { bold: Some(true), underline: Some(true), ..null_style() }
}

/// The style of level-two headings: magenta, underlined.
pub open spec fn heading2_style() -> Style {
    Style { color: Some(SimpleColor::Standard(5)), underline: Some(true), ..null_style() }
}

/// The style of level-three headings: magenta, bold.
pub open spec fn heading3_style() -> Style {
    Style { color: Some(SimpleColor::Standard(5)), bold: Some(true), ..null_style() }
}

/// The style of level-four headings: magenta, italic.
pub open spec fn heading4_style() -> Style {
    Style { color: Some(SimpleColor::Standard(5)), italic: Some(true), ..null_style() }
}

/// The style of level-five headings: italic.
pub open spec fn heading5_style() -> Style {
    Style { italic: Some(true), ..null_style() }
}

/// The style of level-six headings: dim.
pub open spec fn heading6_style() -> Style {
    Style { dim: Some(true), ..null_style() }
}

/// The style of emphasis: italic.
pub open spec fn emphasis_style() -> Style {
    Style { italic: Some(true), ..null_style() }
}

/// The style of strong text: bold.
pub open spec fn strong_style() -> Style {
    Style { bold: Some(true), ..null_style() }
}

/// The style of inline code: bold cyan on black.
pub open spec fn code_style() -> Style {
    Style { bold: Some(true), color: Some(SimpleColor::Standard(6)), bgcolor: Some(SimpleColor::Standard(0)), ..null_style() }
}

/// The style of quoted text: magenta.
pub open spec fn block_quote_style() -> Style {
    Style { color: Some(SimpleColor::Standard(5)), ..null_style() }
}

/// The style of the quote border: magenta.
pub open spec fn block_quote_border_style() -> Style {
    Style { color: Some(SimpleColor::Standard(5)), ..null_style() }
}

/// The style of link text: bright blue.
pub open spec fn link_style() -> Style {
    Style { color: Some(SimpleColor::Standard(12)), ..null_style() }
}

/// The style of a link's address: dim blue.
pub open spec fn link_url_style() -> Style {
    Style { color: Some(SimpleColor::Standard(4)), dim: Some(true), ..null_style() }
}

/// The style of struck-through text: struck, dim.
pub open spec fn strikethrough_style() -> Style {
    Style { strike: Some(true), dim: Some(true), ..null_style() }
}

/// The style of list bullets: bold.
pub open spec fn item_bullet_style() -> Style {
    Style { bold: Some(true), ..null_style() }
}

/// The style of list numbers: cyan.
pub open spec fn item_number_style() -> Style {
    Style { color: Some(SimpleColor::Standard(6)), ..null_style() }
}

/// The style of horizontal rules: dim.
pub open spec fn horizontal_rule_style() -> Style {
    Style { dim: Some(true), ..null_style() }
}

/// The style of level-one headings: bold, underlined.
pub fn heading1() -> (r: Style)
    ensures
        r == heading1_style(),
{
    Style::new().with_bold(true).with_underline(true)
}

/// The style of level-two headings: magenta, underlined.
pub fn heading2() -> (r: Style)
    ensures
        r == heading2_style(),
{
    Style::new().with_color(SimpleColor::Standard(5)).with_underline(true)
}

/// The style of level-three headings: magenta, bold.
pub fn heading3() -> (r: Style)
    ensures
        r == heading3_style(),
{
    Style::new().with_color(SimpleColor::Standard(5)).with_bold(true)
}

/// The style of level-four headings: magenta, italic.
pub fn heading4() -> (r: Style)
    ensures
        r == heading4_style(),
{
    Style::new().with_color(SimpleColor::Standard(5)).with_italic(true)
}

/// The style of level-five headings: italic.
pub fn heading5() -> (r: Style)
    ensures
        r == heading5_style(),
{
    Style::new().with_italic(true)
}

/// The style of level-six headings: dim.
pub fn heading6() -> (r: Style)
    ensures
        r == heading6_style(),
{
    Style::new().with_dim(true)
}

/// The style of emphasis: italic.
pub fn emphasis() -> (r: Style)
    ensures
        r == emphasis_style(),
{
    Style::new().with_italic(true)
}

/// The style of strong text: bold.
pub fn strong() -> (r: Style)
    ensures
        r == strong_style(),
{
    Style::new().with_bold(true)
}

/// The style of inline code: bold cyan on black.
pub fn code() -> (r: Style)
    ensures
        r == code_style(),
{
    Style::new().with_bold(true).with_color(SimpleColor::Standard(6)).with_bgcolor(SimpleColor::Standard(0))
}

/// The style of quoted text: magenta.
pub fn block_quote() -> (r: Style)
    ensures
        r == block_quote_style(),
{
    Style::new().with_color(SimpleColor::Standard(5))
}

/// The style of the quote border: magenta.
pub fn block_quote_border() -> (r: Style)
    ensures
        r == block_quote_border_style(),
{
    Style::new().with_color(SimpleColor::Standard(5))
}

/// The style of link text: bright blue.
pub fn link() -> (r: Style)
    ensures
        r == link_style(),
{
    Style::new().with_color(SimpleColor::Standard(12))
}

/// The style of a link's address: dim blue.
pub fn link_url() -> (r: Style)
    ensures
        r == link_url_style(),
{
    Style::new().with_color(SimpleColor::Standard(4)).with_dim(true)
}

/// The style of struck-through text: struck, dim.
pub fn strikethrough() -> (r: Style)
    ensures
        r == strikethrough_style(),
{
    Style::new().with_strike(true).with_dim(true)
}

/// The style of list bullets: bold.
pub fn item_bullet() -> (r: Style)
    ensures
        r == item_bullet_style(),
{
    Style::new().with_bold(true)
}

/// The style of list numbers: cyan.
pub fn item_number() -> (r: Style)
    ensures
        r == item_number_style(),
{
    Style::new().with_color(SimpleColor::Standard(6))
}

/// The style of horizontal rules: dim.
pub fn horizontal_rule() -> (r: Style)
    ensures
        r == horizontal_rule_style(),
{
    Style::new().with_dim(true)
}

/// What a parser event is.
#[derive(Debug, Clone, Copy, PartialEq, Eq, Structural)]
pub enum MdKind {
    /// An element begins.
    Start,
    /// An element ends.
    End,
    /// Text.
    Text,
    /// Inline code.
    Code,
    /// A line break that is a space.
    SoftBreak,
    /// A line break.
    HardBreak,
    /// A horizontal rule.
    Rule,
    /// Anything else.
    Other,
}

/// The element that an event begins or ends.
#[derive(Debug, Clone, Copy, PartialEq, Eq, Structural)]
pub enum MdTag {
    /// A paragraph.
    Paragraph,
    /// A heading (its level in the event's number).
    Heading,
    /// A block quote.
    BlockQuote,
    /// A code block (its fenced language, if any, in the event's text).
    CodeBlock,
    /// A list (its first number, when ordered, in the event's number).
    List,
    /// A list item.
    Item,
    /// A table.
    Table,
    /// A table's header.
    TableHead,
    /// A table row.
    TableRow,
    /// A table cell.
    TableCell,
    /// Emphasis.
    Emphasis,
    /// Strong text.
    Strong,
    /// Struck-through text.
    Strikethrough,
    /// A link (its address in the event's text).
    Link,
    /// An image (its address in the event's text).
    Image,
    /// Any other element.
    Other,
}

/// A Markdown parser event, as plain values.
pub struct MdEvent {
    /// What the event is.
    pub kind: MdKind,
    /// The element it begins or ends.
    pub tag: MdTag,
    /// Its text, if any.
    pub text: String,
    /// Its number, if any.
    pub num: Option<u64>,
}

/// A parser event by its values.
pub type MdEventView = (MdKind, MdTag, Seq<char>, Option<u64>);

/// Events by their values.
pub open spec fn events_view(v: Seq<MdEvent>) -> Seq<MdEventView> {
    v.map_values(|e: MdEvent| (e.kind, e.tag, e.text@, e.num))
}

/// The events of the CommonMark parse of a text, with tables and strikethrough on.
pub uninterp spec fn markdown_events(markup: Seq<char>) -> Seq<MdEventView>;

/// An outside parser event.
#[verifier::external_type_specification]
#[verifier::external_body]
pub struct ExEvent<'a>(pulldown_cmark::Event<'a>);

/// What kind of event a `pulldown_cmark` event is, one variant for each.
#[verifier::external_body]
fn kind_of(e: &pulldown_cmark::Event) -> (r: MdKind) {
    match e {
        pulldown_cmark::Event::Start(_) => MdKind::Start,
        pulldown_cmark::Event::End(_) => MdKind::End,
        pulldown_cmark::Event::Text(_) => MdKind::Text,
        pulldown_cmark::Event::Code(_) => MdKind::Code,
        pulldown_cmark::Event::SoftBreak => MdKind::SoftBreak,
        pulldown_cmark::Event::HardBreak => MdKind::HardBreak,
        pulldown_cmark::Event::Rule => MdKind::Rule,
        _ => MdKind::Other,
    }
}

/// The text a `pulldown_cmark` event carries: that of text and code events, the
/// language of a fenced code block, the address of a link or image; else empty.
#[verifier::external_body]
fn text_of(e: &pulldown_cmark::Event) -> (r: String) {
    match e {
        pulldown_cmark::Event::Text(t) | pulldown_cmark::Event::Code(t) => t.to_string(),
        pulldown_cmark::Event::Start(pulldown_cmark::Tag::CodeBlock(pulldown_cmark::CodeBlockKind::Fenced(l))) => l.to_string(),
        pulldown_cmark::Event::Start(pulldown_cmark::Tag::Link { dest_url, .. }) => dest_url.to_string(),
        pulldown_cmark::Event::Start(pulldown_cmark::Tag::Image { dest_url, .. }) => dest_url.to_string(),
        _ => String::new(),
    }
}

/// The column alignments of a `pulldown_cmark` table start event, one letter each
/// (`l`, `c`, `r`, or `n` for none); else empty.
#[verifier::external_body]
fn alignments_of(e: &pulldown_cmark::Event) -> (r: String) {
    match e {
        pulldown_cmark::Event::Start(pulldown_cmark::Tag::Table(a)) => a.iter().map(|x| match x {
            pulldown_cmark::Alignment::Left => 'l',
            pulldown_cmark::Alignment::Center => 'c',
            pulldown_cmark::Alignment::Right => 'r',
            pulldown_cmark::Alignment::None => 'n',
        }).collect(),
        _ => String::new(),
    }
}

/// The number a `pulldown_cmark` event carries: a heading's level, an ordered list's
/// first number; else none.
#[verifier::external_body]
fn num_of(e: &pulldown_cmark::Event) -> (r: Option<u64>) {
    match e {
        pulldown_cmark::Event::Start(pulldown_cmark::Tag::Heading { level, .. }) => Some(*level as u64),
        pulldown_cmark::Event::Start(pulldown_cmark::Tag::List(start)) => *start,
        _ => None,
    }
}

/// The block element that a `pulldown_cmark` start event opens (`Other` for the rest).
#[verifier::external_body]
fn start_block_tag(e: &pulldown_cmark::Event) -> (r: MdTag) {
    match e {
        pulldown_cmark::Event::Start(pulldown_cmark::Tag::Paragraph) => MdTag::Paragraph,
        pulldown_cmark::Event::Start(pulldown_cmark::Tag::Heading { .. }) => MdTag::Heading,
        pulldown_cmark::Event::Start(pulldown_cmark::Tag::BlockQuote(_)) => MdTag::BlockQuote,
        pulldown_cmark::Event::Start(pulldown_cmark::Tag::CodeBlock(_)) => MdTag::CodeBlock,
        pulldown_cmark::Event::Start(pulldown_cmark::Tag::List(_)) => MdTag::List,
        pulldown_cmark::Event::Start(pulldown_cmark::Tag::Item) => MdTag::Item,
        pulldown_cmark::Event::Start(pulldown_cmark::Tag::Table(_)) => MdTag::Table,
        pulldown_cmark::Event::Start(pulldown_cmark::Tag::TableHead) => MdTag::TableHead,
        pulldown_cmark::Event::Start(pulldown_cmark::Tag::TableRow) => MdTag::TableRow,
        pulldown_cmark::Event::Start(pulldown_cmark::Tag::TableCell) => MdTag::TableCell,
        _ => MdTag::Other,
    }
}

/// The inline element that a `pulldown_cmark` start event opens (`Other` for the rest).
#[verifier::external_body]
fn start_inline_tag(e: &pulldown_cmark::Event) -> (r: MdTag) {
    match e {
        pulldown_cmark::Event::Start(pulldown_cmark::Tag::Emphasis) => MdTag::Emphasis,
        pulldown_cmark::Event::Start(pulldown_cmark::Tag::Strong) => MdTag::Strong,
        pulldown_cmark::Event::Start(pulldown_cmark::Tag::Strikethrough) => MdTag::Strikethrough,
        pulldown_cmark::Event::Start(pulldown_cmark::Tag::Link { .. }) => MdTag::Link,
        pulldown_cmark::Event::Start(pulldown_cmark::Tag::Image { .. }) => MdTag::Image,
        _ => MdTag::Other,
    }
}

/// The block element that a `pulldown_cmark` end event closes (`Other` for the rest).
#[verifier::external_body]
fn end_block_tag(e: &pulldown_cmark::Event) -> (r: MdTag) {
    match e {
        pulldown_cmark::Event::End(pulldown_cmark::TagEnd::Paragraph) => MdTag::Paragraph,
        pulldown_cmark::Event::End(pulldown_cmark::TagEnd::Heading(_)) => MdTag::Heading,
        pulldown_cmark::Event::End(pulldown_cmark::TagEnd::BlockQuote(_)) => MdTag::BlockQuote,
        pulldown_cmark::Event::End(pulldown_cmark::TagEnd::CodeBlock) => MdTag::CodeBlock,
        pulldown_cmark::Event::End(pulldown_cmark::TagEnd::List(_)) => MdTag::List,
        pulldown_cmark::Event::End(pulldown_cmark::TagEnd::Item) => MdTag::Item,
        pulldown_cmark::Event::End(pulldown_cmark::TagEnd::Table) => MdTag::Table,
        pulldown_cmark::Event::End(pulldown_cmark::TagEnd::TableHead) => MdTag::TableHead,
        pulldown_cmark::Event::End(pulldown_cmark::TagEnd::TableRow) => MdTag::TableRow,
        pulldown_cmark::Event::End(pulldown_cmark::TagEnd::TableCell) => MdTag::TableCell,
        _ => MdTag::Other,
    }
}

/// The inline element that a `pulldown_cmark` end event closes (`Other` for the rest).
#[verifier::external_body]
fn end_inline_tag(e: &pulldown_cmark::Event) -> (r: MdTag) {
    match e {
        pulldown_cmark::Event::End(pulldown_cmark::TagEnd::Emphasis) => MdTag::Emphasis,
        pulldown_cmark::Event::End(pulldown_cmark::TagEnd::Strong) => MdTag::Strong,
        pulldown_cmark::Event::End(pulldown_cmark::TagEnd::Strikethrough) => MdTag::Strikethrough,
        pulldown_cmark::Event::End(pulldown_cmark::TagEnd::Link) => MdTag::Link,
        pulldown_cmark::Event::End(pulldown_cmark::TagEnd::Image) => MdTag::Image,
        _ => MdTag::Other,
    }
}

/// A `pulldown_cmark` event as plain values: its kind; the element it opens or closes;
/// its text (for a table, the column alignments); its number.
pub fn event_of(e: &pulldown_cmark::Event) -> (r: MdEvent)
    ensures
        r.kind != MdKind::Start && r.kind != MdKind::End ==> r.tag == MdTag::Other,
{
    let kind = kind_of(e);
    let tag = match kind {
        MdKind::Start => {
            let t = start_block_tag(e);
            if t == MdTag::Other { start_inline_tag(e) } else { t }
        },
        MdKind::End => {
            let t = end_block_tag(e);
            if t == MdTag::Other { end_inline_tag(e) } else { t }
        },
        _ => MdTag::Other,
    };
    let text = if kind == MdKind::Start && tag == MdTag::Table { alignments_of(e) } else { text_of(e) };
    MdEvent { kind, tag, text, num: num_of(e) }
}

/// The events of `pulldown_cmark::Parser::new_ext` on the text with tables and
/// strikethrough enabled, each as plain values; they are the named result for the text.
#[verifier::external_body]
fn md_events(markup: &str) -> (r: Vec<MdEvent>)
    ensures
        events_view(r@) == markdown_events(markup@),
{
    let options = pulldown_cmark::Options::ENABLE_TABLES | pulldown_cmark::Options::ENABLE_STRIKETHROUGH;
    pulldown_cmark::Parser::new_ext(markup, options).map(|e| event_of(&e)).collect()
}


/// A Markdown document as values.
pub struct MarkdownModel {
    /// The Markdown text.
    pub markup: Seq<char>,
    /// Whether links are terminal hyperlinks (else their address follows in brackets).
    pub hyperlinks: bool,
    /// The lexer named for inline code.
    pub inline_code_lexer: Option<Seq<char>>,
    /// The theme named for code.
    pub code_theme: Seq<char>,
    /// Padding around code blocks.
    pub code_block_padding: Option<PaddingDimensions>,
    /// Justification named for paragraphs.
    pub justify: Option<JustifyMethod>,
    /// A style laid beneath all of the output.
    pub style: Option<Style>,
}

/// Markdown text, rendered for the terminal.
pub struct Markdown {
    markup: String,
    hyperlinks: bool,
    inline_code_lexer: Option<String>,
    code_theme: String,
    code_block_padding: Option<PaddingDimensions>,
    justify: Option<JustifyMethod>,
    style: Option<Style>,
}

/// An optional string as values.
pub open spec fn opt_str_view(o: Option<String>) -> Option<Seq<char>> {
    match o {
        Some(s) => Some(s@),
        None => None,
    }
}

impl View for Markdown {
    type V = MarkdownModel;

    closed spec fn view(&self) -> MarkdownModel {
        MarkdownModel {
            markup: self.markup@,
            hyperlinks: self.hyperlinks,
            inline_code_lexer: opt_str_view(self.inline_code_lexer),
            code_theme: self.code_theme@,
            code_block_padding: self.code_block_padding,
            justify: self.justify,
            style: self.style,
        }
    }
}

/// The theme code is named with when none is given.
pub open spec fn default_code_theme() -> Seq<char> {
    seq!['m', 'o', 'n', 'o', 'k', 'a', 'i']
}

/// A segment with the base style laid beneath its own.
pub open spec fn with_base(s: SegView, base: Option<Style>) -> SegView {
    match base {
        Some(b) => (s.0, Some(match s.1 { Some(x) => combine_spec(b, x), None => b }), s.2),
        None => s,
    }
}

/// Whether output ends in a blank line: its last two segments (as many as there are)
/// are plain newlines.
pub open spec fn trailing_blank(r: Seq<SegView>) -> bool {
    forall|k: int| r.len() - 2 <= k < r.len() && 0 <= k ==> #[trigger] r[k].2 is None && r[k].0 == seq!['\n']
}

/// The first `k` rendered blocks in the base style, a newline after each but the last
/// unless the output already ends in a blank line.
pub open spec fn join_blocks(bs: Seq<Seq<SegView>>, base: Option<Style>, k: nat) -> Seq<SegView>
    decreases k,
{
    if k == 0 {
        Seq::empty()
    } else {
        let cur = join_blocks(bs, base, (k - 1) as nat) + bs[k - 1].map_values(|s: SegView| with_base(s, base));
        if k < bs.len() && !trailing_blank(cur) { cur.push(nl()) } else { cur }
    }
}

/// The padding of code blocks as (top, right, bottom, left).
pub open spec fn pad_of(d: Option<PaddingDimensions>) -> PadOpt {
    match d {
        Some(x) => Some(unpack_spec(x)),
        None => None,
    }
}

/// What a document renders to: the blocks of its parse, each read and rendered in
/// turn, joined.
pub open spec fn markdown_render_spec(m: MarkdownModel, o: crate::console::OptionsModel) -> Seq<SegView> {
    let bs = blocks_run(markdown_events(m.markup), 0, start_ctx(), o, m.hyperlinks, pad_of(m.code_block_padding), Seq::empty());
    join_blocks(bs, m.style, bs.len())
}

impl Markdown {
    /// A document from Markdown text: no hyperlinks, no inline lexer, the default code
    /// theme, no code padding, no justification, no base style.
    pub fn new<S: Into<String>>(markup: S) -> (r: Self)
        ensures
            S::obeys_into_spec() ==> r@.markup == markup.into_spec()@,
            !r@.hyperlinks,
            r@.inline_code_lexer is None,
            r@.code_theme == default_code_theme(),
            r@.code_block_padding is None,
            r@.justify is None,
            r@.style is None,
    {
        let mut theme = String::new();
        theme.push('m');
        theme.push('o');
        theme.push('n');
        theme.push('o');
        theme.push('k');
        theme.push('a');
        theme.push('i');
        assert(theme@ =~= default_code_theme());
        Markdown {
            markup: markup.into(),
            hyperlinks: false,
            inline_code_lexer: None,
            code_theme: theme,
            code_block_padding: None,
            justify: None,
            style: None,
        }
    }

    /// The document with terminal hyperlinks on or off.
    pub fn with_hyperlinks(self, hyperlinks: bool) -> (r: Self)
        ensures
            r@ == (MarkdownModel { hyperlinks, ..self@ }),
    {
        Markdown { hyperlinks, ..self }
    }

    /// The document with a lexer named for inline code.
    pub fn with_inline_code_lexer<S: Into<String>>(self, lexer: S) -> (r: Self)
        ensures
            S::obeys_into_spec() ==> r@ == (MarkdownModel { inline_code_lexer: Some(lexer.into_spec()@), ..self@ }),
    {
        Markdown { inline_code_lexer: Some(lexer.into()), ..self }
    }

    /// The document with a theme named for code.
    pub fn with_code_theme<S: Into<String>>(self, theme: S) -> (r: Self)
        ensures
            S::obeys_into_spec() ==> r@ == (MarkdownModel { code_theme: theme.into_spec()@, ..self@ }),
    {
        Markdown { code_theme: theme.into(), ..self }
    }

    /// The document with padding around code blocks.
    pub fn with_code_block_padding<P: Into<PaddingDimensions>>(self, padding: P) -> (r: Self)
        ensures
            P::obeys_into_spec() ==> r@ == (MarkdownModel { code_block_padding: Some(padding.into_spec()), ..self@ }),
    {
        Markdown { code_block_padding: Some(padding.into()), ..self }
    }

    /// The document with a justification for paragraphs.
    pub fn with_justify(self, justify: JustifyMethod) -> (r: Self)
        ensures
            r@ == (MarkdownModel { justify: Some(justify), ..self@ }),
    {
        Markdown { justify: Some(justify), ..self }
    }

    /// The document with a style laid beneath all of its output.
    pub fn with_style(self, style: Style) -> (r: Self)
        ensures
            r@ == (MarkdownModel { style: Some(style), ..self@ }),
    {
        Markdown { style: Some(style), ..self }
    }

    /// The Markdown text.
    pub fn markup(&self) -> (r: &String)
        ensures
            r@ == self@.markup,
    {
        &self.markup
    }

    /// Whether links are terminal hyperlinks.
    pub fn hyperlinks(&self) -> (r: bool)
        ensures
            r == self@.hyperlinks,
    {
        self.hyperlinks
    }

    /// The lexer named for inline code.
    pub fn inline_code_lexer(&self) -> (r: Option<String>)
        ensures
            opt_str_view(r) == self@.inline_code_lexer,
    {
        match &self.inline_code_lexer {
            Some(l) => Some(l.clone()),
            None => None,
        }
    }

    /// The theme named for code.
    pub fn code_theme(&self) -> (r: &String)
        ensures
            r@ == self@.code_theme,
    {
        &self.code_theme
    }

    /// The padding around code blocks.
    pub fn code_block_padding(&self) -> (r: Option<PaddingDimensions>)
        ensures
            r == self@.code_block_padding,
    {
        self.code_block_padding
    }

    /// The justification named for paragraphs.
    pub fn justify(&self) -> (r: Option<JustifyMethod>)
        ensures
            r == self@.justify,
    {
        self.justify
    }

    /// The style laid beneath the output.
    pub fn style(&self) -> (r: Option<Style>)
        ensures
            r == self@.style,
    {
        self.style
    }
}

/// Whether output ends in a blank line (see `trailing_blank`).
fn trailing_blank_exec(r: &Vec<Segment>) -> (b: bool)
    ensures
        b == trailing_blank(segs_view(r@)),
{
    let n = r.len();
    let from: usize = if n >= 2 { n - 2 } else { 0 };
    let mut k = from;
    while k < n
        invariant
            from <= k <= n,
            n == r@.len(),
            from == (if n >= 2 { n - 2 } else { 0 }),
            forall|x: int| from <= x < k ==> segs_view(r@)[x].2 is None && segs_view(r@)[x].0 == seq!['\n'],
        decreases n - k,
    {
        let s = &r[k];
        let is_nl = s.control.is_none() && s.text.unicode_len() == 1 && s.text.as_str().get_char(0) == '\n';
        if !is_nl {
            assert(!(segs_view(r@)[k as int].2 is None && segs_view(r@)[k as int].0 == seq!['\n'])) by {
                if s.text@ == seq!['\n'] {
                    assert(s.text@.len() == 1);
                }
            }
            return false;
        }
        assert(s.text@ =~= seq!['\n']);
        k = k + 1;
    }
    true
}

/// Join rendered blocks (see `join_blocks`).
fn join_blocks_exec(blocks: Vec<Vec<Segment>>, base: Option<Style>) -> (r: Vec<Segment>)
    ensures
        segs_view(r@) == join_blocks(lines_view(blocks@), base, blocks@.len() as nat),
{
    let ghost bv = lines_view(blocks@);
    let mut out: Vec<Segment> = Vec::new();
    let mut k: usize = 0;
    while k < blocks.len()
        invariant
            k <= blocks.len(),
            bv == lines_view(blocks@),
            segs_view(out@) == join_blocks(bv, base, k as nat),
        decreases blocks.len() - k,
    {
        let block = &blocks[k];
        let ghost lv = segs_view(block@);
        let ghost start = segs_view(out@);
        let mut m: usize = 0;
        while m < block.len()
            invariant
                m <= block.len(),
                lv == segs_view(block@),
                segs_view(out@) == start + lv.take(m as int).map_values(|s: SegView| with_base(s, base)),
            decreases block.len() - m,
        {
            let seg = &block[m];
            let st = match base {
                Some(b) => Some(match seg.style { Some(x) => b.combine(&x), None => b }),
                None => seg.style,
            };
            let ghost prev = segs_view(out@);
            let ns = Segment { text: seg.text.clone(), style: st, control: seg.control, link: crate::segment::link_copy(&seg.link) };
            out.push(ns);
            assert(lv[m as int] == crate::segment::seg_view(block@[m as int]));
            assert(segs_view(out@) =~= prev.push(with_base(lv[m as int], base)));
            assert(lv.take(m as int + 1).map_values(|s: SegView| with_base(s, base)) =~= lv.take(m as int).map_values(|s: SegView| with_base(s, base)).push(with_base(lv[m as int], base)));
            m = m + 1;
        }
        assert(lv.take(m as int) =~= lv);
        assert(bv[k as int] == lv);
        if k + 1 < blocks.len() && !trailing_blank_exec(&out) {
            let ghost prev = segs_view(out@);
            out.push(Segment::line());
            assert(segs_view(out@) =~= prev.push(nl()));
        }
        k = k + 1;
    }
    out
}

impl Renderable for Markdown {
    open spec fn rendered(&self, o: crate::console::OptionsModel) -> Seq<crate::segment::SegView> {
        markdown_render_spec(self@, o)
    }

    open spec fn measured(&self, o: crate::console::OptionsModel) -> Measurement {
        union_all(split_lines_spec(markdown_render_spec(self@, o)).map_values(|l: Seq<SegView>| measure_text(segs_text(l))))
    }

    fn render(&self, console: &Console, options: &ConsoleOptions) -> (r: Vec<Segment>)
    {
        let evs = md_events(self.markup.as_str());
        let pad: PadOpt = match self.code_block_padding {
            Some(d) => Some(d.unpack()),
            None => None,
        };
        let mut ctx = MdContext::new();
        let blocks = render_blocks(console, &evs, &mut ctx, options, self.hyperlinks, pad);
        join_blocks_exec(blocks, self.style)
    }

    fn measure(&self, console: &Console, options: &ConsoleOptions) -> (r: Measurement)
    {
        let segs = self.render(console, options);
        let lines = Segment::split_lines(segs);
        let ghost lv = lines_view(lines@);
        let mut ms: Vec<Measurement> = Vec::new();
        let mut k: usize = 0;
        while k < lines.len()
            invariant
                k <= lines.len(),
                lv == lines_view(lines@),
                ms@ == lv.take(k as int).map_values(|l: Seq<SegView>| measure_text(segs_text(l))),
            decreases lines.len() - k,
        {
            let m = Measurement::from_segments(&lines[k]);
            ms.push(m);
            assert(lv[k as int] == segs_view(lines@[k as int]@));
            assert(ms@ =~= lv.take(k as int + 1).map_values(|l: Seq<SegView>| measure_text(segs_text(l))));
            k = k + 1;
        }
        assert(lv.take(k as int) =~= lv);
        union_measurements(&ms)
    }
}

} // verus!
