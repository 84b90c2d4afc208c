//! The console: rendering options, and a console that renders renderables into
//! ANSI output held in a buffer.
use vstd::prelude::*;
use crate::Renderable;
use vstd::string::StringSliceAdditionalSpecFns;
use crate::color::ColorSystem;
use crate::measure::Measurement;
use crate::segment::{ControlType, Segment, SegView, seg_view, segs_view, lines_view, styled_under, Segments, max_line_width};
use crate::sgr::{stream_segments, stream_spec, segment_mode_segments, segment_mode_spec};
use crate::strs::{owned, push_str, str_eq, trim_chars, trim_spec, ascii_lowercase_chars, ascii_lower_spec, chars_eq, string_from_chars, to_lowercase, unicode_lowercase, starts_with_spec, repeat_spec,
    push_repeat, str_chars, chars_start_with};
use crate::style::Style;
use crate::text::{Text, plain_model};
use crate::theme::{Theme, ThemeError, ThemeStack, default_entries};
use crate::live::{LiveManager, LiveModel, position_cursor_spec};
use crate::live_render::join_newlines;
use crate::align::push_all;

verus! {

broadcast use vstd::string::group_string_axioms;

/// Text justification method.
#[derive(Debug, Clone, Copy, PartialEq, Eq, Hash, Structural)]
pub enum JustifyMethod {
    /// Use default justification (no padding).
    Default,
    /// Left-aligned text.
    Left,
    /// Center-aligned text.
    Center,
    /// Right-aligned text.
    Right,
    /// Full justification (stretch to fill width).
    Full,
}

impl Default for JustifyMethod {
    fn default() -> (r: Self)
        ensures
            r == JustifyMethod::Default,
    {
        JustifyMethod::Default
    }
}

/// The justification that a (lower case) name stands for.
pub open spec fn justify_of(name: Seq<char>) -> Option<JustifyMethod> {
    if name == "default"@ {
        Some(JustifyMethod::Default)
    } else if name == "left"@ {
        Some(JustifyMethod::Left)
    } else if name == "center"@ {
        Some(JustifyMethod::Center)
    } else if name == "right"@ {
        Some(JustifyMethod::Right)
    } else if name == "full"@ {
        Some(JustifyMethod::Full)
    } else {
        None
    }
}

impl JustifyMethod {
    /// Parse a justify method from its name, in any case.
    pub fn parse(s: &str) -> (r: Option<Self>)
        ensures
            r == justify_of(unicode_lowercase(s@)),
    {
        let l = to_lowercase(s);
        let w = l.as_str();
        if str_eq(w, "default") {
            Some(JustifyMethod::Default)
        } else if str_eq(w, "left") {
            Some(JustifyMethod::Left)
        } else if str_eq(w, "center") {
            Some(JustifyMethod::Center)
        } else if str_eq(w, "right") {
            Some(JustifyMethod::Right)
        } else if str_eq(w, "full") {
            Some(JustifyMethod::Full)
        } else {
            None
        }
    }
}

/// Text overflow handling method.
#[derive(Debug, Clone, Copy, PartialEq, Eq, Hash, Structural)]
pub enum OverflowMethod {
    /// Fold text onto the next line.
    Fold,
    /// Crop text at the edge.
    Crop,
    /// Crop and end with an ellipsis.
    Ellipsis,
    /// Let text extend beyond the width.
    Ignore,
}

impl Default for OverflowMethod {
    fn default() -> (r: Self)
        ensures
            r == OverflowMethod::Fold,
    {
        OverflowMethod::Fold
    }
}

/// The overflow method that a (lower case) name stands for.
pub open spec fn overflow_of(name: Seq<char>) -> Option<OverflowMethod> {
    if name == "fold"@ {
        Some(OverflowMethod::Fold)
    } else if name == "crop"@ {
        Some(OverflowMethod::Crop)
    } else if name == "ellipsis"@ {
        Some(OverflowMethod::Ellipsis)
    } else if name == "ignore"@ {
        Some(OverflowMethod::Ignore)
    } else {
        None
    }
}

impl OverflowMethod {
    /// Parse an overflow method from its name, in any case.
    pub fn parse(s: &str) -> (r: Option<Self>)
        ensures
            r == overflow_of(unicode_lowercase(s@)),
    {
        let l = to_lowercase(s);
        let w = l.as_str();
        if str_eq(w, "fold") {
            Some(OverflowMethod::Fold)
        } else if str_eq(w, "crop") {
            Some(OverflowMethod::Crop)
        } else if str_eq(w, "ellipsis") {
            Some(OverflowMethod::Ellipsis)
        } else if str_eq(w, "ignore") {
            Some(OverflowMethod::Ignore)
        } else {
            None
        }
    }
}

/// Options passed through the rendering pipeline, with the console state that
/// renderables may need.
#[derive(Debug)]
pub struct ConsoleOptions {
    /// Terminal dimensions as (width, height).
    pub size: (usize, usize),
    /// Minimum width for rendering.
    pub min_width: usize,
    /// Maximum width for rendering.
    pub max_width: usize,
    /// Maximum height constraint.
    pub max_height: usize,
    /// Optional height constraint for specific renderables.
    pub height: Option<usize>,
    /// Whether output is to a terminal (vs file/pipe).
    pub is_terminal: bool,
    /// Character encoding.
    pub encoding: String,
    /// Whether to use legacy Windows console.
    pub legacy_windows: bool,
    /// Text justification override.
    pub justify: Option<JustifyMethod>,
    /// Text overflow handling override.
    pub overflow: Option<OverflowMethod>,
    /// Disable text wrapping.
    pub no_wrap: bool,
    /// Highlight override.
    pub highlight: Option<bool>,
    /// Markup parsing override.
    pub markup: Option<bool>,
    /// Theme stack for style lookups.
    pub theme_stack: ThemeStack,
    /// Current theme name.
    pub theme_name: String,
    /// Whether markup parsing is enabled by default.
    pub markup_enabled: bool,
    /// Whether emoji replacement is enabled by default.
    pub emoji_enabled: bool,
    /// Whether highlighting is enabled by default.
    pub highlight_enabled: bool,
    /// Tab size for tab expansion.
    pub tab_size: usize,
    /// Disable terminal automatic line wrap while printing.
    pub disable_line_wrap: bool,
    /// Color system (None = no colors).
    pub color_system: Option<ColorSystem>,
}

/// Console options as values.
pub struct OptionsModel {
    pub size: (usize, usize),
    pub min_width: usize,
    pub max_width: usize,
    pub max_height: usize,
    pub height: Option<usize>,
    pub is_terminal: bool,
    pub encoding: Seq<char>,
    pub legacy_windows: bool,
    pub justify: Option<JustifyMethod>,
    pub overflow: Option<OverflowMethod>,
    pub no_wrap: bool,
    pub highlight: Option<bool>,
    pub markup: Option<bool>,
    pub theme_stack: Seq<Seq<(Seq<char>, Style)>>,
    pub theme_name: Seq<char>,
    pub markup_enabled: bool,
    pub emoji_enabled: bool,
    pub highlight_enabled: bool,
    pub tab_size: usize,
    pub disable_line_wrap: bool,
    pub color_system: Option<ColorSystem>,
}

impl View for ConsoleOptions {
    type V = OptionsModel;

    open spec fn view(&self) -> OptionsModel {
        OptionsModel {
            size: self.size,
            min_width: self.min_width,
            max_width: self.max_width,
            max_height: self.max_height,
            height: self.height,
            is_terminal: self.is_terminal,
            encoding: self.encoding@,
            legacy_windows: self.legacy_windows,
            justify: self.justify,
            overflow: self.overflow,
            no_wrap: self.no_wrap,
            highlight: self.highlight,
            markup: self.markup,
            theme_stack: self.theme_stack@,
            theme_name: self.theme_name@,
            markup_enabled: self.markup_enabled,
            emoji_enabled: self.emoji_enabled,
            highlight_enabled: self.highlight_enabled,
            tab_size: self.tab_size,
            disable_line_wrap: self.disable_line_wrap,
            color_system: self.color_system,
        }
    }
}

/// The default options: an 80x24 terminal, UTF-8, 256 colors, default theme.
pub open spec fn default_options() -> OptionsModel {
    OptionsModel {
        size: (80, 24),
        min_width: 1,
        max_width: 80,
        max_height: 24,
        height: None,
        is_terminal: true,
        encoding: "utf-8"@,
        legacy_windows: false,
        justify: None,
        overflow: None,
        no_wrap: false,
        highlight: None,
        markup: None,
        theme_stack: seq![default_entries()],
        theme_name: "default"@,
        markup_enabled: true,
        emoji_enabled: true,
        highlight_enabled: true,
        tab_size: 8,
        disable_line_wrap: false,
        color_system: Some(ColorSystem::EightBit),
    }
}

impl Default for ConsoleOptions {
    fn default() -> (r: Self)
        ensures
            r@ == default_options(),
    {
        ConsoleOptions {
            size: (80, 24),
            min_width: 1,
            max_width: 80,
            max_height: 24,
            height: None,
            is_terminal: true,
            encoding: owned("utf-8"),
            legacy_windows: false,
            justify: None,
            overflow: None,
            no_wrap: false,
            highlight: None,
            markup: None,
            theme_stack: ThemeStack::default(),
            theme_name: owned("default"),
            markup_enabled: true,
            emoji_enabled: true,
            highlight_enabled: true,
            tab_size: 8,
            disable_line_wrap: false,
            color_system: Some(ColorSystem::EightBit),
        }
    }
}

impl Clone for ConsoleOptions {
    fn clone(&self) -> (r: Self)
        ensures
            r@ == self@,
    {
        self.copy()
    }
}

impl ConsoleOptions {
    /// Get a style from the theme stack by name.
    pub fn get_style(&self, name: &str) -> (r: Option<Style>)
        ensures
            r == crate::theme::stack_lookup(self@.theme_stack, name@),
    {
        self.theme_stack.get_style(name)
    }

    /// Whether renderables should use ASCII only: the encoding does not start with `utf`
    /// (in any case).
    pub fn ascii_only(&self) -> (r: bool)
        ensures
            r == !starts_with_spec(unicode_lowercase(self@.encoding), "utf"@),
    {
        let l = to_lowercase(self.encoding.as_str());
        let lc = str_chars(l.as_str());
        let p = str_chars("utf");
        !chars_start_with(lc.as_slice(), p.as_slice())
    }

    /// A copy of the options.
    pub fn copy(&self) -> (r: Self)
        ensures
            r@ == self@,
    {
        ConsoleOptions {
            size: self.size,
            min_width: self.min_width,
            max_width: self.max_width,
            max_height: self.max_height,
            height: self.height,
            is_terminal: self.is_terminal,
            encoding: self.encoding.clone(),
            legacy_windows: self.legacy_windows,
            justify: self.justify,
            overflow: self.overflow,
            no_wrap: self.no_wrap,
            highlight: self.highlight,
            markup: self.markup,
            theme_stack: self.theme_stack.copy(),
            theme_name: self.theme_name.clone(),
            markup_enabled: self.markup_enabled,
            emoji_enabled: self.emoji_enabled,
            highlight_enabled: self.highlight_enabled,
            tab_size: self.tab_size,
            disable_line_wrap: self.disable_line_wrap,
            color_system: self.color_system,
        }
    }

    /// A copy with the given values replaced: `width` sets both widths, then
    /// `min_width` and `max_width`; a height also becomes the maximum height.
    pub fn update(
        &self,
        width: Option<usize>,
        min_width: Option<usize>,
        max_width: Option<usize>,
        justify: Option<Option<JustifyMethod>>,
        overflow: Option<Option<OverflowMethod>>,
        no_wrap: Option<bool>,
        highlight: Option<Option<bool>>,
        markup: Option<Option<bool>>,
        height: Option<Option<usize>>,
    ) -> (r: Self)
        ensures
            r@ == (OptionsModel {
                min_width: match min_width {
                    Some(w) => w,
                    None => match width { Some(w) => w, None => self.min_width },
                },
                max_width: match max_width {
                    Some(w) => w,
                    None => match width { Some(w) => w, None => self.max_width },
                },
                justify: match justify { Some(j) => j, None => self.justify },
                overflow: match overflow { Some(o) => o, None => self.overflow },
                no_wrap: match no_wrap { Some(n) => n, None => self.no_wrap },
                highlight: match highlight { Some(h) => h, None => self.highlight },
                markup: match markup { Some(m) => m, None => self.markup },
                max_height: match height { Some(Some(h)) => h, _ => self.max_height },
                height: match height { Some(h) => h, None => self.height },
                ..self@
            }),
    {
        let min_w = match min_width {
            Some(w) => w,
            None => match width { Some(w) => w, None => self.min_width },
        };
        let max_w = match max_width {
            Some(w) => w,
            None => match width { Some(w) => w, None => self.max_width },
        };
        let mut options = self.copy();
        options.min_width = min_w;
        options.max_width = max_w;
        options.justify = match justify { Some(j) => j, None => self.justify };
        options.overflow = match overflow { Some(o) => o, None => self.overflow };
        options.no_wrap = match no_wrap { Some(n) => n, None => self.no_wrap };
        options.highlight = match highlight { Some(h) => h, None => self.highlight };
        options.markup = match markup { Some(m) => m, None => self.markup };
        options.max_height = match height { Some(Some(h)) => h, _ => self.max_height };
        options.height = match height { Some(h) => h, None => self.height };
        options
    }

    /// A copy with both widths set to `width`.
    pub fn update_width(&self, width: usize) -> (r: Self)
        ensures
            r@ == (OptionsModel { min_width: width, max_width: width, ..self@ }),
    {
        let mut options = self.copy();
        options.min_width = width;
        options.max_width = width;
        options
    }

    /// A copy with the height (and maximum height) set.
    pub fn update_height(&self, height: usize) -> (r: Self)
        ensures
            r@ == (OptionsModel { max_height: height, height: Some(height), ..self@ }),
    {
        let mut options = self.copy();
        options.max_height = height;
        options.height = Some(height);
        options
    }

    /// A copy with both widths and the height set.
    pub fn update_dimensions(&self, width: usize, height: usize) -> (r: Self)
        ensures
            r@ == (OptionsModel {
                min_width: width,
                max_width: width,
                max_height: height,
                height: Some(height),
                ..self@
            }),
    {
        let mut options = self.copy();
        options.min_width = width;
        options.max_width = width;
        options.max_height = height;
        options.height = Some(height);
        options
    }

    /// A copy without a height.
    pub fn reset_height(&self) -> (r: Self)
        ensures
            r@ == (OptionsModel { height: None, ..self@ }),
    {
        let mut options = self.copy();
        options.height = None;
        options
    }
}

/// The console's state as values.
pub struct ConsoleModel {
    /// The options handed to renderables.
    pub options: OptionsModel,
    /// The color system of the output.
    pub color_system: Option<ColorSystem>,
    /// Terminal mode forced on or off.
    pub force_terminal: Option<bool>,
    /// Legacy Windows console.
    pub legacy_windows: bool,
    /// Markup parsing on by default.
    pub markup_enabled: bool,
    /// Emoji replacement on by default.
    pub emoji_enabled: bool,
    /// Highlighting on by default.
    pub highlight_enabled: bool,
    /// The theme stack.
    pub theme_stack: Seq<Seq<(Seq<char>, Style)>>,
    /// The base theme's name.
    pub theme_name: Seq<char>,
    /// Whether the alternate screen is active.
    pub alt_screen: bool,
    /// Whether output is suppressed.
    pub quiet: bool,
    /// Tab size.
    pub tab_size: usize,
    /// Whether printed segments are recorded.
    pub record: bool,
    /// The recorded segments.
    pub recorded: Seq<SegView>,
    /// Everything written so far.
    pub out: Seq<char>,
    /// The hyperlink targets written so far, in the order first written (a target's
    /// id counts its place from one).
    pub link_urls: Seq<Seq<char>>,
}

/// The screen row of line `i` of lines put from row `y`: `y + i`, held at the last row.
pub open spec fn screen_row(y: u16, i: nat) -> u16 {
    if y + i > u16::MAX { u16::MAX } else { (y + i) as u16 }
}

/// The segments that put lines on the screen from column `x`, row `y`: before each
/// line a cursor move to the start of its row.
pub open spec fn screen_lines_spec(lines: Seq<Seq<SegView>>, x: u16, y: u16) -> Seq<SegView>
    decreases lines.len(),
{
    if lines.len() == 0 {
        Seq::empty()
    } else {
        screen_lines_spec(lines.drop_last(), x, y)
            + seq![(Seq::<char>::empty(), None::<Style>, Some(ControlType::MoveTo { x, y: screen_row(y, (lines.len() - 1) as nat) }))]
            + lines.last()
    }
}

/// The link targets of the segments that put lines on the screen: none for each cursor
/// move, then each segment's own.
pub open spec fn screen_links_spec(lines: Seq<Seq<Option<Seq<char>>>>) -> Seq<Option<Seq<char>>>
    decreases lines.len(),
{
    if lines.len() == 0 {
        Seq::empty()
    } else {
        screen_links_spec(lines.drop_last()) + seq![None::<Seq<char>>] + lines.last()
    }
}

/// The link targets of lines of segments.
pub open spec fn lines_links(lines: Seq<Vec<Segment>>) -> Seq<Seq<Option<Seq<char>>>> {
    lines.map_values(|l: Vec<Segment>| crate::segment::links_view(l@))
}

/// A console after segments with the given link targets are written as
/// `print_segments` writes them.
pub open spec fn segments_written(c: ConsoleModel, segs: Seq<SegView>, links: Seq<Option<Seq<char>>>) -> ConsoleModel {
    if c.quiet {
        c
    } else if is_terminal_spec(c) {
        let res = crate::hyperlink::link_stream_spec(segs, links, c.color_system, c.link_urls);
        ConsoleModel { out: c.out + res.0, link_urls: res.1, ..c }
    } else {
        ConsoleModel { out: c.out + stream_spec(segs, c.color_system), ..c }
    }
}

/// The error of `update_screen_lines` when the alternate screen is off: an
/// `std::io::Error` of kind `Other` made by `std::io::Error::new`.
#[verifier::external_body]
fn alt_screen_required() -> (r: std::io::Error) {
    std::io::Error::new(std::io::ErrorKind::Other, "Alt screen must be enabled to call update_screen_lines")
}

/// A console that renders into an output buffer.
pub struct Console {
    options: ConsoleOptions,
    color_system: Option<ColorSystem>,
    force_terminal: Option<bool>,
    legacy_windows: bool,
    markup_enabled: bool,
    emoji_enabled: bool,
    highlight_enabled: bool,
    theme_stack: ThemeStack,
    theme_name: String,
    is_alt_screen: bool,
    quiet: bool,
    tab_size: usize,
    record: bool,
    record_buffer: Vec<Segment>,
    out: String,
    render_hooks: Vec<HookSlot>,
    link_urls: Vec<String>,
}

/// A render hook held by the console.
struct HookSlot {
    hook: Box<dyn RenderHook>,
}

/// A render hook in its slot.
fn hold_hook(hook: Box<dyn RenderHook>) -> (r: HookSlot) {
    HookSlot { hook }
}

/// Changes rendered segments before the console writes them.
pub trait RenderHook {
    /// The segments to write in place of the rendered ones.
    fn process(&self, segments: &Vec<Segment>) -> Vec<Segment>;
}

impl View for Console {
    type V = ConsoleModel;

    closed spec fn view(&self) -> ConsoleModel {
        ConsoleModel {
            options: self.options@,
            color_system: self.color_system,
            force_terminal: self.force_terminal,
            legacy_windows: self.legacy_windows,
            markup_enabled: self.markup_enabled,
            emoji_enabled: self.emoji_enabled,
            highlight_enabled: self.highlight_enabled,
            theme_stack: self.theme_stack@,
            theme_name: self.theme_name@,
            alt_screen: self.is_alt_screen,
            quiet: self.quiet,
            tab_size: self.tab_size,
            record: self.record,
            recorded: segs_view(self.record_buffer@),
            out: self.out@,
            link_urls: crate::hyperlink::urls_view(self.link_urls@),
        }
    }
}

/// A fresh console on options: its state fields are taken from the options.
pub open spec fn console_from(o: OptionsModel) -> ConsoleModel {
    ConsoleModel {
        options: o,
        color_system: o.color_system,
        force_terminal: None,
        legacy_windows: o.legacy_windows,
        markup_enabled: o.markup_enabled,
        emoji_enabled: o.emoji_enabled,
        highlight_enabled: o.highlight_enabled,
        theme_stack: o.theme_stack,
        theme_name: o.theme_name,
        alt_screen: false,
        quiet: false,
        tab_size: o.tab_size,
        record: false,
        recorded: Seq::empty(),
        out: Seq::empty(),
        link_urls: Seq::empty(),
    }
}

/// Whether the console counts as writing to a terminal.
pub open spec fn is_terminal_spec(c: ConsoleModel) -> bool {
    match c.force_terminal {
        Some(f) => f,
        None => c.options.is_terminal,
    }
}

/// Segments with a style applied beneath each (control segments unchanged).
pub open spec fn apply_style_spec(segs: Seq<SegView>, style: Option<Style>) -> Seq<SegView> {
    segs.map_values(|s: SegView| styled_under(s, style, None))
}

/// The console after writing rendered segments and the `end` string: the segments
/// (in `style`) and the end go to the record when recording, and their ANSI output
/// to the buffer.
pub open spec fn after_write(c: ConsoleModel, segs: Seq<SegView>, style: Option<Style>, end: Seq<char>) -> ConsoleModel {
    let styled = match style {
        Some(s) => apply_style_spec(segs, Some(s)),
        None => segs,
    };
    ConsoleModel {
        recorded: if c.record {
            c.recorded + styled + (if end.len() > 0 { seq![(end, None::<Style>, None::<ControlType>)] } else { Seq::empty() })
        } else {
            c.recorded
        },
        out: c.out + stream_spec(styled, c.color_system) + end,
        ..c
    }
}

/// A rule line of `width` cells of box lines (a title centered in it) and a newline.
pub open spec fn rule_line(title: Option<Seq<char>>, width: nat) -> Seq<char> {
    match title {
        None => repeat_spec('\u{2500}', width) + seq!['\n'],
        Some(t) => {
            let tw = crate::cells::unicode_str_width(t) as int;
            let pad: nat = if width - (tw + 2) > 0 { ((width - (tw + 2)) / 2) as nat } else { 0 };
            repeat_spec('\u{2500}', pad) + seq![' '] + t + seq![' '] + repeat_spec('\u{2500}', pad) + seq!['\n']
        },
    }
}

/// The given options, else the console's.
pub open spec fn chosen_options(o: Option<&ConsoleOptions>, d: OptionsModel) -> OptionsModel {
    match o {
        Some(x) => x@,
        None => d,
    }
}

/// The width of the options chosen for rendering.
pub open spec fn chosen_width(o: Option<&ConsoleOptions>, d: OptionsModel) -> nat {
    match o {
        Some(x) => x@.max_width as nat,
        None => d.max_width as nat,
    }
}

/// Rendered segments made into lines: a style (when given) applied beneath each
/// segment, split into lines, each line made `width` cells wide.
pub fn lines_from_render(segments: Vec<Segment>, style: Option<Style>, width: usize, pad: bool, new_lines: bool) -> (r: Vec<Vec<Segment>>)
    ensures
        lines_view(r@) == lines_of_render(segs_view(segments@), style, width as nat, pad, new_lines),
{
    let ghost sv = segs_view(segments@);
    let segments = match style {
        Some(s) => Segment::apply_style_to_segments(segments, Some(s), None),
        None => segments,
    };
    assert(segs_view(segments@) =~= match style { Some(s) => apply_style_spec(sv, Some(s)), None => sv });
    Segment::split_and_crop_lines(segments, width, style, pad, new_lines)
}

/// The lines made of rendered segments: a style (when given) applied beneath each
/// segment, split into lines, each line made `width` cells wide.
pub open spec fn lines_of_render(segs: Seq<SegView>, style: Option<Style>, width: nat, pad: bool, new_lines: bool) -> Seq<Seq<SegView>> {
    crate::segment::split_and_crop_spec(
        match style { Some(s) => apply_style_spec(segs, Some(s)), None => segs },
        width,
        style,
        pad,
        new_lines,
    )
}

/// What one recorded segment exports to.
pub open spec fn export_piece(s: SegView, styles: bool, sys: Option<ColorSystem>) -> Seq<char> {
    if s.2 is Some {
        Seq::empty()
    } else {
        match (styles, s.1, sys) {
            (true, Some(st), Some(_)) => crate::style::render_spec(st, s.0, sys),
            _ => s.0,
        }
    }
}

/// What recorded segments export to.
pub open spec fn export_text_spec(segs: Seq<SegView>, styles: bool, sys: Option<ColorSystem>) -> Seq<char>
    decreases segs.len(),
{
    if segs.len() == 0 {
        Seq::empty()
    } else {
        export_text_spec(segs.drop_last(), styles, sys) + export_piece(segs.last(), styles, sys)
    }
}

/// What `print` hands to the renderable: the console's options with the justify,
/// overflow and wrapping of the call.
pub open spec fn print_options(o: OptionsModel, justify: Option<JustifyMethod>, overflow: Option<OverflowMethod>, no_wrap: bool) -> OptionsModel {
    OptionsModel { justify, overflow, no_wrap, ..o }
}

impl Console {
    /// A console on the given options (its state is taken from the options).
    pub fn with_options(options: ConsoleOptions) -> (r: Self)
        ensures
            r@ == console_from(options@),
    {
        let theme_stack = options.theme_stack.copy();
        let theme_name = options.theme_name.clone();
        let rb: Vec<Segment> = Vec::new();
        assert(segs_view(rb@) =~= Seq::<SegView>::empty());
        let lu: Vec<String> = Vec::new();
        assert(crate::hyperlink::urls_view(lu@) =~= Seq::<Seq<char>>::empty());
        Console {
            color_system: options.color_system,
            force_terminal: None,
            legacy_windows: options.legacy_windows,
            markup_enabled: options.markup_enabled,
            emoji_enabled: options.emoji_enabled,
            highlight_enabled: options.highlight_enabled,
            theme_stack,
            theme_name,
            is_alt_screen: false,
            quiet: false,
            tab_size: options.tab_size,
            record: false,
            record_buffer: rb,
            out: String::new(),
            options,
            render_hooks: Vec::new(),
            link_urls: lu,
        }
    }

    /// How many render hooks the console holds.
    pub closed spec fn hook_count(&self) -> nat {
        self.render_hooks@.len()
    }

    /// Add a render hook: what the console renders for printing goes through it, after
    /// the hooks added before it.
    pub fn push_render_hook(&mut self, hook: Box<dyn RenderHook>)
        ensures
            final(self)@ == old(self)@,
            final(self).hook_count() == old(self).hook_count() + 1,
    {
        let slot = hold_hook(hook);
        self.render_hooks.push(slot);
    }

    /// Remove the last render hook added, if any.
    pub fn pop_render_hook(&mut self)
        ensures
            final(self)@ == old(self)@,
            final(self).hook_count() == if old(self).hook_count() > 0 { (old(self).hook_count() - 1) as nat } else { 0 },
    {
        if self.render_hooks.len() > 0 {
            let _ = self.render_hooks.pop();
        }
    }

    /// Rendered segments passed through the render hooks in the order they were added;
    /// unchanged when there are none.
    pub fn apply_render_hooks(&self, segments: Vec<Segment>) -> (r: Vec<Segment>)
        ensures
            self.hook_count() == 0 ==> r == segments,
    {
        let mut cur = segments;
        let mut i: usize = 0;
        while i < self.render_hooks.len()
            invariant
                i <= self.render_hooks@.len(),
                self.render_hooks@.len() == 0 ==> cur == segments,
            decreases self.render_hooks.len() - i,
        {
            cur = self.render_hooks[i].hook.process(&cur);
            i = i + 1;
        }
        cur
    }

    /// A console on the default options.
    pub fn new() -> (r: Self)
        ensures
            r@ == console_from(default_options()),
    {
        Console::with_options(ConsoleOptions::default())
    }

    /// A console on the default options that records what it prints.
    pub fn new_with_record() -> (r: Self)
        ensures
            r@ == (ConsoleModel { record: true, ..console_from(default_options()) }),
    {
        let mut c = Console::new();
        c.record = true;
        c
    }

    /// A console whose output is captured (not a terminal).
    pub fn capture() -> (r: Self)
        ensures
            r@ == console_from(OptionsModel { is_terminal: false, ..default_options() }),
    {
        let mut o = ConsoleOptions::default();
        o.is_terminal = false;
        Console::with_options(o)
    }

    /// A capturing console on the given options.
    pub fn capture_with_options(options: ConsoleOptions) -> (r: Self)
        ensures
            r@ == console_from(options@),
    {
        Console::with_options(options)
    }

    /// The console with the theme of a name as its base theme; unchanged for a name
    /// that is not known.
    pub fn with_theme(self, name: &str) -> (r: Self)
        ensures
            name@ == "default"@ ==> r@ == (ConsoleModel {
                theme_stack: seq![default_entries()],
                theme_name: name@,
                options: OptionsModel { theme_stack: seq![default_entries()], theme_name: name@, ..self@.options },
                ..self@
            }),
            name@ != "default"@ ==> r@ == self@,
    {
        let mut c = self;
        c.set_theme(name);
        c
    }

    /// Everything written so far.
    pub fn get_captured(&self) -> (r: String)
        ensures
            r@ == self@.out,
    {
        self.out.clone()
    }

    /// Everything written so far, as UTF-8 bytes.
    pub fn get_captured_bytes(&self) -> (r: &[u8])
        ensures
            r@ == vstd::utf8::encode_utf8(self@.out),
    {
        self.out.as_str().as_bytes()
    }

    /// Clear the output buffer.
    pub fn clear_captured(&mut self)
        ensures
            final(self)@ == (ConsoleModel { out: Seq::empty(), ..old(self)@ }),
    {
        self.out = String::new();
    }

    /// The console options.
    pub fn options(&self) -> (r: &ConsoleOptions)
        ensures
            r@ == self@.options,
    {
        &self.options
    }

    /// Mutable access to the options (the console's own state fields stay as they are;
    /// see `sync_from_options`).
    pub fn options_mut(&mut self) -> (r: &mut ConsoleOptions)
        ensures
            r@ == old(self)@.options,
            final(self)@ == (ConsoleModel { options: final(r)@, ..old(self)@ }),
    {
        &mut self.options
    }

    /// Set the console options (the console's own state fields stay as they are;
    /// see `sync_from_options`).
    pub fn set_options(&mut self, options: ConsoleOptions)
        ensures
            final(self)@ == (ConsoleModel { options: options@, ..old(self)@ }),
    {
        self.options = options;
    }

    /// Take the console's state fields from its options.
    pub fn sync_from_options(&mut self)
        ensures
            final(self)@ == (ConsoleModel {
                markup_enabled: old(self)@.options.markup_enabled,
                emoji_enabled: old(self)@.options.emoji_enabled,
                highlight_enabled: old(self)@.options.highlight_enabled,
                tab_size: old(self)@.options.tab_size,
                color_system: old(self)@.options.color_system,
                theme_stack: old(self)@.options.theme_stack,
                theme_name: old(self)@.options.theme_name,
                legacy_windows: old(self)@.options.legacy_windows,
                ..old(self)@
            }),
    {
        self.markup_enabled = self.options.markup_enabled;
        self.emoji_enabled = self.options.emoji_enabled;
        self.highlight_enabled = self.options.highlight_enabled;
        self.tab_size = self.options.tab_size;
        self.color_system = self.options.color_system;
        self.theme_stack = self.options.theme_stack.copy();
        self.theme_name = self.options.theme_name.clone();
        self.legacy_windows = self.options.legacy_windows;
    }

    /// A copy of the options (which the setters keep in step with the console).
    pub fn options_with_state(&self) -> (r: ConsoleOptions)
        ensures
            r@ == self@.options,
    {
        self.options.copy()
    }

    /// The width.
    pub fn width(&self) -> (r: usize)
        ensures
            r == self@.options.max_width,
    {
        self.options.max_width
    }

    /// The height.
    pub fn height(&self) -> (r: usize)
        ensures
            r == self@.options.max_height,
    {
        self.options.max_height
    }

    /// The terminal size.
    pub fn size(&self) -> (r: (usize, usize))
        ensures
            r == self@.options.size,
    {
        self.options.size
    }

    /// Set the terminal size (and the maximum width and height).
    pub fn set_size(&mut self, width: usize, height: usize)
        ensures
            final(self)@ == (ConsoleModel {
                options: OptionsModel { size: (width, height), max_width: width, max_height: height, ..old(self)@.options },
                ..old(self)@
            }),
    {
        self.options.size = (width, height);
        self.options.max_width = width;
        self.options.max_height = height;
    }

    /// Whether the console writes to a terminal.
    pub fn is_terminal(&self) -> (r: bool)
        ensures
            r == is_terminal_spec(self@),
    {
        match self.force_terminal {
            Some(f) => f,
            None => self.options.is_terminal,
        }
    }

    /// Force terminal mode on or off (`None` goes back to the options).
    pub fn set_force_terminal(&mut self, force: Option<bool>)
        ensures
            final(self)@ == (ConsoleModel { force_terminal: force, ..old(self)@ }),
    {
        self.force_terminal = force;
    }

    /// The color system.
    pub fn color_system(&self) -> (r: Option<ColorSystem>)
        ensures
            r == self@.color_system,
    {
        self.color_system
    }

    /// Set the color system (console and options).
    pub fn set_color_system(&mut self, system: Option<ColorSystem>)
        ensures
            final(self)@ == (ConsoleModel {
                color_system: system,
                options: OptionsModel { color_system: system, ..old(self)@.options },
                ..old(self)@
            }),
    {
        self.color_system = system;
        self.options.color_system = system;
    }

    /// Whether markup is parsed by default.
    pub fn is_markup_enabled(&self) -> (r: bool)
        ensures
            r == self@.markup_enabled,
    {
        self.markup_enabled
    }

    /// Enable or disable markup parsing by default (console and options).
    pub fn set_markup_enabled(&mut self, enabled: bool)
        ensures
            final(self)@ == (ConsoleModel {
                markup_enabled: enabled,
                options: OptionsModel { markup_enabled: enabled, ..old(self)@.options },
                ..old(self)@
            }),
    {
        self.markup_enabled = enabled;
        self.options.markup_enabled = enabled;
    }

    /// Whether emoji codes are replaced by default.
    pub fn is_emoji_enabled(&self) -> (r: bool)
        ensures
            r == self@.emoji_enabled,
    {
        self.emoji_enabled
    }

    /// Enable or disable emoji replacement by default (console and options).
    pub fn set_emoji_enabled(&mut self, enabled: bool)
        ensures
            final(self)@ == (ConsoleModel {
                emoji_enabled: enabled,
                options: OptionsModel { emoji_enabled: enabled, ..old(self)@.options },
                ..old(self)@
            }),
    {
        self.emoji_enabled = enabled;
        self.options.emoji_enabled = enabled;
    }

    /// Whether highlighting is on by default.
    pub fn is_highlight_enabled(&self) -> (r: bool)
        ensures
            r == self@.highlight_enabled,
    {
        self.highlight_enabled
    }

    /// Enable or disable highlighting by default (console and options).
    pub fn set_highlight_enabled(&mut self, enabled: bool)
        ensures
            final(self)@ == (ConsoleModel {
                highlight_enabled: enabled,
                options: OptionsModel { highlight_enabled: enabled, ..old(self)@.options },
                ..old(self)@
            }),
    {
        self.highlight_enabled = enabled;
        self.options.highlight_enabled = enabled;
    }

    /// The tab size.
    pub fn tab_size(&self) -> (r: usize)
        ensures
            r == self@.tab_size,
    {
        self.tab_size
    }

    /// Set the tab size (console and options).
    pub fn set_tab_size(&mut self, size: usize)
        ensures
            final(self)@ == (ConsoleModel {
                tab_size: size,
                options: OptionsModel { tab_size: size, ..old(self)@.options },
                ..old(self)@
            }),
    {
        self.tab_size = size;
        self.options.tab_size = size;
    }

    /// The output encoding.
    pub fn encoding(&self) -> (r: &str)
        ensures
            r@ == self@.options.encoding,
    {
        self.options.encoding.as_str()
    }

    /// Set the output encoding.
    pub fn set_encoding(&mut self, encoding: &str)
        ensures
            final(self)@ == (ConsoleModel {
                options: OptionsModel { encoding: encoding@, ..old(self)@.options },
                ..old(self)@
            }),
    {
        self.options.encoding = owned(encoding);
    }

    /// Whether output is suppressed.
    pub fn is_quiet(&self) -> (r: bool)
        ensures
            r == self@.quiet,
    {
        self.quiet
    }

    /// Suppress or allow output.
    pub fn set_quiet(&mut self, quiet: bool)
        ensures
            final(self)@ == (ConsoleModel { quiet, ..old(self)@ }),
    {
        self.quiet = quiet;
    }

    /// The base theme's name.
    pub fn theme_name(&self) -> (r: &str)
        ensures
            r@ == self@.theme_name,
    {
        self.theme_name.as_str()
    }

    /// Replace the base theme by the theme of a name (pushed themes are dropped);
    /// nothing changes for a name that is not known.
    pub fn set_theme(&mut self, name: &str)
        ensures
            name@ == "default"@ ==> final(self)@ == (ConsoleModel {
                theme_stack: seq![default_entries()],
                theme_name: name@,
                options: OptionsModel { theme_stack: seq![default_entries()], theme_name: name@, ..old(self)@.options },
                ..old(self)@
            }),
            name@ != "default"@ ==> final(self)@ == old(self)@,
    {
        if let Some(theme) = Theme::from_name(name) {
            let t2 = theme.copy();
            self.theme_stack = ThemeStack::new(theme);
            self.options.theme_stack = ThemeStack::new(t2);
            self.theme_name = owned(name);
            self.options.theme_name = owned(name);
        }
    }

    /// The theme stack.
    pub fn theme_stack(&self) -> (r: &ThemeStack)
        ensures
            r@ == self@.theme_stack,
    {
        &self.theme_stack
    }

    /// Mutable access to the theme stack (the options keep theirs; see
    /// `sync_theme_to_options`).
    pub fn theme_stack_mut(&mut self) -> (r: &mut ThemeStack)
        ensures
            r@ == old(self)@.theme_stack,
            final(self)@ == (ConsoleModel { theme_stack: final(r)@, ..old(self)@ }),
    {
        &mut self.theme_stack
    }

    /// Replace the theme stack (the options keep theirs; see `sync_theme_to_options`).
    pub fn set_theme_stack(&mut self, stack: ThemeStack)
        ensures
            final(self)@ == (ConsoleModel { theme_stack: stack@, ..old(self)@ }),
    {
        self.theme_stack = stack;
    }

    /// Give the options the console's theme stack.
    pub fn sync_theme_to_options(&mut self)
        ensures
            final(self)@ == (ConsoleModel {
                options: OptionsModel { theme_stack: old(self)@.theme_stack, ..old(self)@.options },
                ..old(self)@
            }),
    {
        self.options.theme_stack = self.theme_stack.copy();
    }

    /// Push a theme onto both theme stacks.
    pub fn push_theme(&mut self, theme: Theme)
        ensures
            final(self)@ == pushed_theme(old(self)@, theme@),
            final(self)@.theme_stack.len() >= 2,
            final(self)@.options.theme_stack.len() >= 2,
    {
        let _depths = self.theme_depths();
        let t2 = theme.copy();
        self.theme_stack.push_theme(theme);
        self.options.theme_stack.push_theme(t2);
    }

    /// How many themes the console's stack and its options' stack hold: each at least
    /// its base theme.
    pub fn theme_depths(&self) -> (r: (usize, usize))
        ensures
            r.0 == self@.theme_stack.len(),
            r.1 == self@.options.theme_stack.len(),
            r.0 >= 1,
            r.1 >= 1,
    {
        (self.theme_stack.depth(), self.options.theme_stack.depth())
    }

    /// Pop the top theme from both stacks; an error when the console's stack holds only
    /// its base theme.
    #[verifier::rlimit(40)]
    pub fn pop_theme(&mut self) -> (r: Result<(), ThemeError>)
        ensures
            old(self)@.theme_stack.len() <= 1 ==> r is Err && final(self)@ == old(self)@,
            old(self)@.theme_stack.len() > 1 ==> final(self)@.theme_stack == old(self)@.theme_stack.drop_last(),
            old(self)@.theme_stack.len() > 1 && old(self)@.options.theme_stack.len() > 1 ==> r is Ok
                && final(self)@ == popped_theme(old(self)@),
            old(self)@.theme_stack.len() > 1 && old(self)@.options.theme_stack.len() <= 1 ==> r is Err
                && final(self)@ == (ConsoleModel { theme_stack: old(self)@.theme_stack.drop_last(), ..old(self)@ }),
    {
        let r = self.theme_stack.pop_theme();
        if r.is_err() {
            return r;
        }
        self.options.theme_stack.pop_theme()
    }

    /// Write text as it is (nothing in quiet mode).
    pub fn write_str(&mut self, s: &str)
        ensures
            final(self)@ == (ConsoleModel {
                out: if old(self)@.quiet { old(self)@.out } else { old(self)@.out + s@ },
                ..old(self)@
            }),
    {
        if !self.quiet {
            push_str(&mut self.out, s);
        }
    }

    /// Write bytes as they are, decoded as UTF-8 (nothing in quiet mode).
    pub fn write_raw(&mut self, data: &[u8])
        ensures
            old(self)@.quiet ==> final(self)@ == old(self)@,
            !old(self)@.quiet ==> final(self)@ == (ConsoleModel {
                out: old(self)@.out + crate::file_proxy::utf8_lossy(data@),
                ..old(self)@
            }),
            !old(self)@.quiet ==> forall|t: Seq<char>| #[trigger] vstd::utf8::encode_utf8(t) == data@
                ==> final(self)@.out == old(self)@.out + t,
    {
        if !self.quiet {
            let t = crate::file_proxy::text_of_bytes(data);
            push_str(&mut self.out, t.as_str());
        }
    }

    /// Put lines on the alternate screen from column `x`, row `y` down: a cursor move
    /// before each line. An error when the alternate screen is not on.
    pub fn update_screen_lines(&mut self, lines: &Vec<Vec<Segment>>, x: u16, y: u16) -> (r: Result<(), std::io::Error>)
        ensures
            !old(self)@.alt_screen ==> r is Err && final(self)@ == old(self)@,
            old(self)@.alt_screen ==> r is Ok && final(self)@ == segments_written(
                old(self)@,
                screen_lines_spec(lines_view(lines@), x, y),
                screen_links_spec(lines_links(lines@)),
            ),
    {
        if !self.is_alt_screen {
            return Err(alt_screen_required());
        }
        let ghost lv = lines_view(lines@);
        let mut segments: Vec<Segment> = Vec::new();
        let mut i: usize = 0;
        while i < lines.len()
            invariant
                i <= lines@.len(),
                lv == lines_view(lines@),
                segs_view(segments@) == screen_lines_spec(lv.take(i as int), x, y),
                crate::segment::links_view(segments@) == screen_links_spec(lines_links(lines@).take(i as int)),
            decreases lines.len() - i,
        {
            let ghost before = segs_view(segments@);
            let ghost lbefore = crate::segment::links_view(segments@);
            let row: u16 = if i < 65536 { y.saturating_add(i as u16) } else { u16::MAX };
            segments.push(Segment::control(ControlType::MoveTo { x, y: row }));
            let line = &lines[i];
            let ghost mid = segs_view(segments@);
            let ghost lmid = crate::segment::links_view(segments@);
            assert(lmid =~= lbefore.push(None::<Seq<char>>));
            let mut k: usize = 0;
            while k < line.len()
                invariant
                    k <= line@.len(),
                    segs_view(segments@) == mid + segs_view(line@).take(k as int),
                    crate::segment::links_view(segments@) == lmid + crate::segment::links_view(line@).take(k as int),
                decreases line.len() - k,
            {
                let ghost prev = segs_view(segments@);
                let ghost lprev = crate::segment::links_view(segments@);
                let c = line[k].copy();
                segments.push(c);
                assert(segs_view(segments@) =~= prev.push(seg_view(line@[k as int])));
                assert(crate::segment::links_view(segments@) =~= lprev.push(crate::segment::link_of(line@[k as int])));
                assert(segs_view(line@).take(k + 1) =~= segs_view(line@).take(k as int).push(seg_view(line@[k as int])));
                assert(crate::segment::links_view(line@).take(k + 1) =~= crate::segment::links_view(line@).take(k as int).push(crate::segment::link_of(line@[k as int])));
                k = k + 1;
            }
            assert(segs_view(line@).take(k as int) =~= segs_view(line@));
            assert(crate::segment::links_view(line@).take(k as int) =~= crate::segment::links_view(line@));
            assert(lines_links(lines@)[i as int] == crate::segment::links_view(line@));
            assert(lines_links(lines@).take(i + 1).drop_last() =~= lines_links(lines@).take(i as int));
            assert(lv[i as int] == segs_view(line@));
            assert(lv.take(i + 1).drop_last() =~= lv.take(i as int));
            assert(row == screen_row(y, i as nat));
            assert(segs_view(segments@) =~= screen_lines_spec(lv.take(i + 1), x, y));
            i = i + 1;
        }
        assert(lv.take(i as int) =~= lv);
        assert(lines_links(lines@).take(i as int) =~= lines_links(lines@));
        self.print_segments(&segments);
        Ok(())
    }

    /// Write control segments as they stream (nothing in quiet mode).
    fn write_stream(&mut self, segments: &Vec<Segment>)
        ensures
            final(self)@ == (ConsoleModel {
                out: if old(self)@.quiet { old(self)@.out } else { old(self)@.out + stream_spec(segs_view(segments@), old(self)@.color_system) },
                ..old(self)@
            }),
    {
        if self.quiet {
            return;
        }
        let s = stream_segments(segments, self.color_system);
        push_str(&mut self.out, s.as_str());
    }

    /// Write segments: their ANSI output goes to the buffer (nothing in quiet mode). On
    /// a terminal, the text of segments with a link target is wrapped in hyperlink
    /// sequences, each target with the id the console keeps for it.
    pub fn print_segments(&mut self, segments: &Vec<Segment>)
        ensures
            final(self).hook_count() == old(self).hook_count(),
            final(self)@ == segments_written(old(self)@, segs_view(segments@), crate::segment::links_view(segments@)),
    {
        if self.quiet {
            return;
        }
        if self.is_terminal() {
            let s = crate::hyperlink::link_stream_segments(segments, self.color_system, &mut self.link_urls);
            push_str(&mut self.out, s.as_str());
        } else {
            let s = stream_segments(segments, self.color_system);
            push_str(&mut self.out, s.as_str());
        }
    }

    /// Write segments one by one, each with its own style codes (for consoles that keep no
    /// state between writes); nothing in quiet mode.
    pub fn print_segments_segment_mode(&mut self, segments: &Vec<Segment>)
        ensures
            old(self)@.quiet ==> final(self)@ == old(self)@,
            !old(self)@.quiet && !is_terminal_spec(old(self)@) ==> final(self)@ == (ConsoleModel {
                out: old(self)@.out + segment_mode_spec(segs_view(segments@), old(self)@.color_system),
                ..old(self)@
            }),
            !old(self)@.quiet && is_terminal_spec(old(self)@) ==> ({
                let res = crate::hyperlink::link_mode_from(
                    segs_view(segments@), crate::segment::links_view(segments@), old(self)@.color_system, None, old(self)@.link_urls);
                final(self)@ == (ConsoleModel { out: old(self)@.out + res.0, link_urls: res.1, ..old(self)@ })
            }),
    {
        if self.quiet {
            return;
        }
        if self.is_terminal() {
            let s = crate::hyperlink::link_mode_segments(segments, self.color_system, &mut self.link_urls);
            push_str(&mut self.out, s.as_str());
        } else {
            let s = segment_mode_segments(segments, self.color_system);
            push_str(&mut self.out, s.as_str());
        }
    }

    /// Write one segment: styled text as the style renders it, other text as it is.
    pub fn print_segment(&mut self, segment: &Segment)
        ensures
            final(self)@ == (ConsoleModel {
                out: if old(self)@.quiet {
                    old(self)@.out
                } else {
                    old(self)@.out + match segment.style {
                        Some(st) => match old(self)@.color_system {
                            Some(_) => crate::style::render_spec(st, segment.text@, old(self)@.color_system),
                            None => segment.text@,
                        },
                        None => segment.text@,
                    }
                },
                ..old(self)@
            }),
    {
        if self.quiet {
            return;
        }
        match segment.style {
            Some(st) => {
                if self.color_system.is_some() {
                    let r = st.render(segment.text.as_str(), self.color_system);
                    push_str(&mut self.out, r.as_str());
                } else {
                    push_str(&mut self.out, segment.text.as_str());
                }
            },
            None => {
                push_str(&mut self.out, segment.text.as_str());
            },
        }
    }

    /// Write rendered segments and the end string: with a style, it is applied
    /// beneath each segment; when recording, the segments and the end go to the record.
    pub fn write_rendered(&mut self, segments: Vec<Segment>, style: Option<Style>, end: &str)
        ensures
            final(self)@ == after_write(old(self)@, segs_view(segments@), style, end@),
            final(self).hook_count() == old(self).hook_count(),
    {
        let ghost sv = segs_view(segments@);
        let segs = match style {
            Some(s) => crate::segment::Segment::apply_style_to_segments(segments, Some(s), None),
            None => segments,
        };
        assert(segs_view(segs@) =~= match style {
            Some(s) => apply_style_spec(sv, Some(s)),
            None => sv,
        });
        if self.record {
            let mut rec: Vec<Segment> = Vec::new();
            let mut i: usize = 0;
            while i < segs.len()
                invariant
                    i <= segs.len(),
                    segs_view(rec@) =~= segs_view(segs@.take(i as int)),
                decreases segs.len() - i,
            {
                let ghost rv = segs_view(rec@);
                rec.push(segs[i].copy());
                assert(segs_view(rec@) =~= rv.push(seg_view(segs@[i as int])));
                assert(segs_view(segs@.take(i + 1)) =~= segs_view(segs@.take(i as int)).push(seg_view(segs@[i as int])));
                i = i + 1;
            }
            assert(segs@.take(i as int) =~= segs@);
            if !end.is_empty() {
                let ghost rv0 = segs_view(rec@);
                rec.push(Segment::new(end));
                assert(segs_view(rec@) =~= rv0 + seq![(end@, None::<Style>, None::<ControlType>)]);
            } else {
                assert(segs_view(rec@) =~= segs_view(rec@) + Seq::<SegView>::empty());
            }
            let ghost b = segs_view(self.record_buffer@);
            let ghost rv = segs_view(rec@);
            self.record_buffer.append(&mut rec);
            assert(segs_view(self.record_buffer@) =~= b + rv);
            assert(segs_view(self.record_buffer@) =~= b + segs_view(segs@) + (if end@.len() > 0 {
                seq![(end@, None::<Style>, None::<ControlType>)]
            } else {
                Seq::<SegView>::empty()
            }));
        }
        let ghost o0 = self.out@;
        let s = stream_segments(&segs, self.color_system);
        push_str(&mut self.out, s.as_str());
        push_str(&mut self.out, end);
        assert(self.out@ =~= o0 + stream_spec(segs_view(segs@), self.color_system) + end@);
        proof {
            let e = after_write(old(self)@, sv, style, end@);
            assert(self@.out =~= e.out);
            assert(self@.recorded =~= e.recorded);
            assert(self@ == e);
        }
    }

    /// Print a renderable: it is rendered on the console's options with the given
    /// justify, overflow and wrapping, and written as `write_rendered` writes (nothing
    /// in quiet mode).
    pub fn print(
        &mut self,
        renderable: &dyn Renderable,
        style: Option<Style>,
        justify: Option<JustifyMethod>,
        overflow: Option<OverflowMethod>,
        no_wrap: bool,
        end: &str,
    )
        ensures
            final(self).hook_count() == old(self).hook_count(),
            old(self)@.quiet ==> final(self)@ == old(self)@,
            !old(self)@.quiet && old(self).hook_count() == 0 ==> final(self)@ == after_write(
                old(self)@,
                renderable.rendered(print_options(old(self)@.options, justify, overflow, no_wrap)),
                style,
                end@,
            ),
            !old(self)@.quiet ==> exists|segs: Seq<SegView>| final(self)@ == after_write(old(self)@, segs, style, end@),
    {
        if self.quiet {
            return;
        }
        let options = self.options.update(None, None, None, Some(justify), Some(overflow), Some(no_wrap), None, None, None);
        assert(options@ == print_options(self@.options, justify, overflow, no_wrap));
        let temp = Console::with_options(options.copy());
        let rendered = renderable.render(&temp, &options);
        let segments = self.apply_render_hooks(rendered);
        self.write_rendered(segments, style, end);
    }

    /// Print JSON text laid out with the given indent (see `Json`), keys sorted when
    /// asked and highlighted when asked, without wrapping, followed by a newline.
    pub fn print_json(&mut self, json: &str, indent: usize, highlight: bool, sort_keys: bool)
        requires
            (json@.len() + 1) * indent <= usize::MAX,
        ensures
            old(self)@.quiet ==> final(self)@ == old(self)@,
            !old(self)@.quiet && old(self).hook_count() == 0 ==> final(self)@ == after_write(
                old(self)@,
                crate::text::render_text_spec(
                    crate::json::json_text_spec(plain_model(crate::json::json_layout(json@, indent as nat, sort_keys), None), highlight),
                    print_options(old(self)@.options, None, None, true),
                ),
                None,
                seq!['\n'],
            ),
            !old(self)@.quiet ==> exists|segs: Seq<SegView>| final(self)@ == after_write(old(self)@, segs, None, seq!['\n']),
    {
        let j = crate::json::Json::new(json, indent, highlight, sort_keys);
        proof {
            reveal_strlit("\n");
            assert("\n"@ =~= seq!['\n']);
        }
        self.print(&j, None, None, None, true, "\n");
    }

    /// Print text followed by a newline (as unstyled text when recording).
    pub fn print_text(&mut self, text: &str)
        ensures
            old(self)@.quiet ==> final(self)@ == old(self)@,
            !old(self)@.quiet && !old(self)@.record ==> final(self)@ == (ConsoleModel { out: old(self)@.out + text@ + seq!['\n'], ..old(self)@ }),
            !old(self)@.quiet && old(self)@.record && old(self).hook_count() == 0 ==> final(self)@ == after_write(
                old(self)@,
                crate::text::render_text_spec(plain_model(text@, None), print_options(old(self)@.options, None, None, false)),
                None,
                seq!['\n'],
            ),
            !old(self)@.quiet && old(self)@.record ==> exists|segs: Seq<SegView>| final(self)@ == after_write(old(self)@, segs, None, seq!['\n']),
    {
        if self.quiet {
            return;
        }
        if self.record {
            let t = Text::plain(text);
            proof {
                reveal_strlit("\n");
                assert("\n"@ =~= seq!['\n']);
            }
            self.print(&t, None, None, None, false, "\n");
            return;
        }
        push_str(&mut self.out, text);
        self.out.push('\n');
        assert(self.out@ =~= old(self).out@ + text@ + seq!['\n']);
    }

    /// Print text in a style followed by a newline: the style renders it when there is
    /// a color system (as styled text when recording).
    pub fn print_styled(&mut self, text: &str, style: Style)
        ensures
            old(self)@.quiet ==> final(self)@ == old(self)@,
            !old(self)@.quiet && !old(self)@.record ==> final(self)@ == (ConsoleModel {
                out: old(self)@.out + (match old(self)@.color_system {
                    Some(_) => crate::style::render_spec(style, text@, old(self)@.color_system),
                    None => text@,
                }) + seq!['\n'],
                ..old(self)@
            }),
            !old(self)@.quiet && old(self)@.record && old(self).hook_count() == 0 ==> final(self)@ == after_write(
                old(self)@,
                crate::text::render_text_spec(plain_model(text@, Some(style)), print_options(old(self)@.options, None, None, false)),
                None,
                seq!['\n'],
            ),
            !old(self)@.quiet && old(self)@.record ==> exists|segs: Seq<SegView>| final(self)@ == after_write(old(self)@, segs, None, seq!['\n']),
    {
        if self.quiet {
            return;
        }
        if self.record {
            let t = Text::styled(text, style);
            proof {
                reveal_strlit("\n");
                assert("\n"@ =~= seq!['\n']);
            }
            self.print(&t, None, None, None, false, "\n");
            return;
        }
        let ghost before = self.out@;
        if self.color_system.is_some() {
            let r = style.render(text, self.color_system);
            push_str(&mut self.out, r.as_str());
        } else {
            push_str(&mut self.out, text);
        }
        let ghost mid = self.out@;
        self.out.push('\n');
        assert(self.out@ =~= mid + seq!['\n']);
    }

    /// Print `count` empty lines.
    pub fn line(&mut self, count: usize)
        ensures
            final(self)@ == (ConsoleModel {
                out: if old(self)@.quiet { old(self)@.out } else { old(self)@.out + repeat_spec('\n', count as nat) },
                ..old(self)@
            }),
    {
        if self.quiet {
            return;
        }
        push_repeat(&mut self.out, '\n', count);
    }

    /// Print a horizontal rule across the width, with a title in the middle when given.
    pub fn rule(&mut self, title: Option<&str>)
        ensures
            final(self)@ == (ConsoleModel {
                out: if old(self)@.quiet {
                    old(self)@.out
                } else {
                    old(self)@.out + rule_line(match title { Some(t) => Some(t@), None => None }, old(self)@.options.max_width as nat)
                },
                ..old(self)@
            }),
    {
        if self.quiet {
            return;
        }
        let width = self.options.max_width;
        let ghost b0 = self.out@;
        match title {
            Some(t) => {
                let tw = crate::cells::cell_len(t);
                let pad: usize = if tw < width && width - tw > 2 { (width - tw - 2) / 2 } else { 0 };
                push_repeat(&mut self.out, '\u{2500}', pad);
                self.out.push(' ');
                push_str(&mut self.out, t);
                self.out.push(' ');
                push_repeat(&mut self.out, '\u{2500}', pad);
                self.out.push('\n');
                assert(self.out@ =~= b0 + rule_line(Some(t@), width as nat));
            },
            None => {
                push_repeat(&mut self.out, '\u{2500}', width);
                self.out.push('\n');
                assert(self.out@ =~= b0 + rule_line(None, width as nat));
            },
        }
    }

    /// Ring the bell.
    pub fn bell(&mut self)
        ensures
            final(self)@ == (ConsoleModel { out: old(self)@.out + seq!['\x07'], ..old(self)@ }),
    {
        self.out.push('\x07');
        assert(self.out@ =~= old(self).out@ + seq!['\x07']);
    }

    /// Whether the alternate screen is active.
    pub fn is_alt_screen(&self) -> (r: bool)
        ensures
            r == self@.alt_screen,
    {
        self.is_alt_screen
    }

    /// Switch the alternate screen on or off: on a terminal (not a legacy Windows
    /// console) whose state differs, the control codes are written and `true` returned.
    pub fn set_alt_screen(&mut self, enable: bool) -> (r: bool)
        ensures
            r == (is_terminal_spec(old(self)@) && !old(self)@.legacy_windows && enable != old(self)@.alt_screen),
            !r ==> final(self)@ == old(self)@,
            r ==> final(self)@ == (ConsoleModel {
                alt_screen: enable,
                out: if old(self)@.quiet {
                    old(self)@.out
                } else if enable {
                    old(self)@.out + "\x1b[?1049h"@ + "\x1b[H"@
                } else {
                    old(self)@.out + "\x1b[?1049l"@
                },
                ..old(self)@
            }),
    {
        if !self.is_terminal() || self.legacy_windows {
            return false;
        }
        if enable == self.is_alt_screen {
            return false;
        }
        let mut segs: Vec<Segment> = Vec::new();
        if enable {
            segs.push(Segment::control(ControlType::EnableAltScreen));
            segs.push(Segment::control(ControlType::Home));
            self.is_alt_screen = true;
        } else {
            segs.push(Segment::control(ControlType::DisableAltScreen));
            self.is_alt_screen = false;
        }
        proof {
            reveal_with_fuel(crate::sgr::stream_from, 3);
            let sv = segs_view(segs@);
            if enable {
                assert(sv.drop_first().drop_first() =~= Seq::<SegView>::empty());
                assert(stream_spec(sv, self.color_system) =~= "\x1b[?1049h"@ + "\x1b[H"@);
            } else {
                assert(sv.drop_first() =~= Seq::<SegView>::empty());
                assert(stream_spec(sv, self.color_system) =~= "\x1b[?1049l"@);
            }
        }
        let ghost before = self.out@;
        self.write_stream(&segs);
        proof {
            if !self.quiet {
                if enable {
                    assert(self.out@ =~= before + "\x1b[?1049h"@ + "\x1b[H"@);
                } else {
                    assert(self.out@ =~= before + "\x1b[?1049l"@);
                }
            }
        }
        true
    }

    /// Enter the alternate screen (on a terminal that is not a legacy Windows console).
    pub fn enter_alt_screen(&mut self) -> (r: bool)
        ensures
            r == (is_terminal_spec(old(self)@) && !old(self)@.legacy_windows && !old(self)@.alt_screen),
            !r ==> final(self)@ == old(self)@,
            r ==> final(self)@.alt_screen,
    {
        if !self.is_terminal() || self.legacy_windows {
            return false;
        }
        self.set_alt_screen(true)
    }

    /// Leave the alternate screen (when on a terminal and in it).
    pub fn leave_alt_screen(&mut self) -> (r: bool)
        ensures
            r == (is_terminal_spec(old(self)@) && old(self)@.alt_screen && !old(self)@.legacy_windows),
            !r ==> final(self)@ == old(self)@,
            r ==> !final(self)@.alt_screen,
    {
        if !self.is_terminal() || !self.is_alt_screen {
            return false;
        }
        self.set_alt_screen(false)
    }

    /// Whether printed segments are recorded.
    pub fn is_recording(&self) -> (r: bool)
        ensures
            r == self@.record,
    {
        self.record
    }

    /// Switch recording on or off.
    pub fn set_record(&mut self, record: bool)
        ensures
            final(self)@ == (ConsoleModel { record, ..old(self)@ }),
    {
        self.record = record;
    }

    /// Clear the record.
    pub fn clear_record_buffer(&mut self)
        ensures
            final(self)@ == (ConsoleModel { recorded: Seq::empty(), ..old(self)@ }),
    {
        self.record_buffer = Vec::new();
        assert(segs_view(self.record_buffer@) =~= Seq::<SegView>::empty());
    }

    /// A copy of the recorded segments.
    pub fn get_record_buffer(&self) -> (r: Vec<Segment>)
        ensures
            segs_view(r@) == self@.recorded,
    {
        let mut v: Vec<Segment> = Vec::new();
        let mut i: usize = 0;
        while i < self.record_buffer.len()
            invariant
                i <= self.record_buffer.len(),
                segs_view(v@) =~= segs_view(self.record_buffer@.take(i as int)),
            decreases self.record_buffer.len() - i,
        {
            v.push(self.record_buffer[i].copy());
            assert(segs_view(self.record_buffer@.take(i + 1)) =~= segs_view(self.record_buffer@.take(i as int)).push(seg_view(self.record_buffer@[i as int])));
            i = i + 1;
        }
        assert(self.record_buffer@.take(i as int) =~= self.record_buffer@);
        v
    }

    /// Render a renderable into lines: rendered on the given options (or the
    /// console's), a style (when given) applied beneath each segment, split into lines
    /// and each line made as wide as the options' maximum width.
    pub fn render_lines(
        &self,
        renderable: &dyn Renderable,
        options: Option<&ConsoleOptions>,
        style: Option<Style>,
        pad: bool,
        new_lines: bool,
    ) -> (r: Vec<Vec<Segment>>)
        ensures
            lines_view(r@) == lines_of_render(
                renderable.rendered(chosen_options(options, self@.options)),
                style,
                chosen_width(options, self@.options),
                pad,
                new_lines,
            ),
    {
        let render_options = match options {
            Some(o) => o.copy(),
            None => self.options.copy(),
        };
        let temp = Console::with_options(render_options.copy());
        let segments = renderable.render(&temp, &render_options);
        assert(render_options.max_width as nat == chosen_width(options, self@.options));
        lines_from_render(segments, style, render_options.max_width, pad, new_lines)
    }

    /// Text from a string: parsed as markup when markup is on (the string as it is
    /// when it does not parse), then given to the highlighter when highlighting is on.
    /// `None` for an option takes the console's default. Emoji codes are left as they are.
    pub fn render_str(
        &self,
        text: &str,
        markup: Option<bool>,
        emoji: Option<bool>,
        highlight: Option<bool>,
        highlighter: Option<&dyn crate::highlighter::Highlighter>,
    ) -> (r: Text)
        requires
            crate::markup::utf8_width(text@) <= usize::MAX,
        ensures
            ({
                let m = match markup { Some(b) => b, None => self@.markup_enabled };
                let h = match highlight { Some(b) => b, None => self@.highlight_enabled };
                !(h && highlighter is Some) ==> (
                    if m {
                        match crate::markup::render_spec(text@) {
                            Ok((t, spans)) => r@.plain == t && crate::markup::spans_m(r.span_values()) == spans,
                            Err(_) => r@.plain == text@ && r.span_values().len() == 0,
                        }
                    } else {
                        r@.plain == text@ && r.span_values().len() == 0
                    }
                )
            }),
    {
        let markup_enabled = match markup { Some(b) => b, None => self.markup_enabled };
        let highlight_enabled = match highlight { Some(b) => b, None => self.highlight_enabled };
        let mut result = if markup_enabled {
            match Text::from_markup(text, false) {
                Ok(t) => t,
                Err(_) => Text::plain(text),
            }
        } else {
            Text::plain(text)
        };
        if highlight_enabled {
            if let Some(hl) = highlighter {
                hl.highlight(&mut result);
            }
        }
        result
    }

    /// Print text without wrapping or markup: unstyled text (in `style` when given)
    /// followed by a newline, printed as `print` prints.
    pub fn out(&mut self, text: &str, style: Option<Style>, highlight: Option<bool>)
        ensures
            old(self)@.quiet ==> final(self)@ == old(self)@,
            !old(self)@.quiet && old(self).hook_count() == 0 ==> final(self)@ == after_write(
                old(self)@,
                crate::text::render_text_spec(plain_model(text@, None), print_options(old(self)@.options, None, Some(OverflowMethod::Ignore), true)),
                style,
                seq!['\n'],
            ),
            !old(self)@.quiet ==> exists|segs: Seq<SegView>| final(self)@ == after_write(old(self)@, segs, style, seq!['\n']),
            final(self).hook_count() == old(self).hook_count(),
    {
        if self.quiet {
            return;
        }
        let t = Text::plain(text);
        proof {
            reveal_strlit("\n");
            assert("\n"@ =~= seq!['\n']);
        }
        self.print(&t, style, None, Some(OverflowMethod::Ignore), true, "\n");
    }

    /// The recorded output as text: with styles, each styled segment as its style renders
    /// it (when there is a color system); control segments left out. With `clear`, the
    /// record is emptied.
    pub fn export_text(&mut self, clear: bool, styles: bool) -> (r: String)
        ensures
            r@ == export_text_spec(old(self)@.recorded, styles, old(self)@.color_system),
            final(self)@ == (ConsoleModel {
                recorded: if clear { Seq::empty() } else { old(self)@.recorded },
                ..old(self)@
            }),
    {
        let mut out = String::new();
        let mut i: usize = 0;
        let ghost rv = segs_view(self.record_buffer@);
        while i < self.record_buffer.len()
            invariant
                i <= self.record_buffer.len(),
                rv == segs_view(self.record_buffer@),
                out@ == export_text_spec(rv.take(i as int), styles, self.color_system),
            decreases self.record_buffer.len() - i,
        {
            let seg = &self.record_buffer[i];
            proof {
                assert(rv.take(i + 1).drop_last() =~= rv.take(i as int));
                assert(rv.take(i + 1).last() == seg_view(*seg));
            }
            let ghost before = out@;
            if seg.control.is_none() {
                match (styles, seg.style, self.color_system) {
                    (true, Some(st), Some(_)) => {
                        let r = st.render(seg.text.as_str(), self.color_system);
                        push_str(&mut out, r.as_str());
                    },
                    _ => {
                        push_str(&mut out, seg.text.as_str());
                    },
                }
            }
            assert(out@ =~= before + export_piece(seg_view(*seg), styles, self.color_system));
            i = i + 1;
        }
        assert(rv.take(i as int) =~= rv);
        if clear {
            self.clear_record_buffer();
        }
        out
    }

    /// Render a renderable on the console's options.
    pub fn render(&self, renderable: &dyn Renderable) -> (r: Vec<Segment>)
        ensures
            self.hook_count() == 0 ==> segs_view(r@) == renderable.rendered(self@.options),
    {
        self.apply_render_hooks(renderable.render(self, &self.options))
    }

    /// Render a renderable on the given options.
    pub fn render_with_options(&self, renderable: &dyn Renderable, options: &ConsoleOptions) -> (r: Vec<Segment>)
        ensures
            self.hook_count() == 0 ==> segs_view(r@) == renderable.rendered(options@),
    {
        self.apply_render_hooks(renderable.render(self, options))
    }

    /// Measure a renderable on the given options, or the console's.
    pub fn measure(&self, renderable: &dyn Renderable, options: Option<&ConsoleOptions>) -> (r: Measurement)
        ensures
            r == renderable.measured(chosen_options(options, self@.options)),
    {
        let opts = match options {
            Some(o) => o.copy(),
            None => self.options.copy(),
        };
        let temp = Console::with_options(opts.copy());
        renderable.measure(&temp, &opts)
    }
}

/// How segments are written on a Windows console.
#[derive(Debug, Clone, Copy, PartialEq, Eq, Structural)]
pub enum WindowsRenderMode {
    /// One styled write per segment.
    Segment,
    /// One stream, switching only what changes between segments.
    Streaming,
}

/// The render mode that a setting names (trimmed, ASCII case ignored); streaming for
/// anything else or no setting.
pub open spec fn windows_render_mode_of(value: Option<Seq<char>>) -> WindowsRenderMode {
    match value {
        Some(v) => if ascii_lower_spec(trim_spec(v)) == "segment"@ {
            WindowsRenderMode::Segment
        } else {
            WindowsRenderMode::Streaming
        },
        None => WindowsRenderMode::Streaming,
    }
}

/// Parse a render mode setting: `"segment"` selects segment mode, anything else
/// (or nothing) streaming.
pub fn parse_windows_render_mode(value: Option<&str>) -> (r: WindowsRenderMode)
    ensures
        r == windows_render_mode_of(match value { Some(v) => Some(v@), None => None }),
{
    match value {
        Some(v) => {
            let cs = str_chars(v);
            let t = trim_chars(cs.as_slice());
            let l = ascii_lowercase_chars(t.as_slice());
            let seg = str_chars("segment");
            if chars_eq(l.as_slice(), seg.as_slice()) {
                WindowsRenderMode::Segment
            } else {
                WindowsRenderMode::Streaming
            }
        },
        None => WindowsRenderMode::Streaming,
    }
}

/// The boolean that a setting names (trimmed, ASCII case ignored): `1`, `true`, `yes`,
/// `on` or `0`, `false`, `no`, `off`.
pub open spec fn bool_setting_of(v: Seq<char>) -> Option<bool> {
    let w = ascii_lower_spec(trim_spec(v));
    if w == "1"@ || w == "true"@ || w == "yes"@ || w == "on"@ {
        Some(true)
    } else if w == "0"@ || w == "false"@ || w == "no"@ || w == "off"@ {
        Some(false)
    } else {
        None
    }
}

/// Parse a boolean setting.
pub fn parse_bool_env(value: &str) -> (r: Option<bool>)
    ensures
        r == bool_setting_of(value@),
{
    let cs = str_chars(value);
    let t = trim_chars(cs.as_slice());
    let l = ascii_lowercase_chars(t.as_slice());
    let w = string_from_chars(l.as_slice());
    let ws = w.as_str();
    if str_eq(ws, "1") || str_eq(ws, "true") || str_eq(ws, "yes") || str_eq(ws, "on") {
        Some(true)
    } else if str_eq(ws, "0") || str_eq(ws, "false") || str_eq(ws, "no") || str_eq(ws, "off") {
        Some(false)
    } else {
        None
    }
}

/// Options of a pager context.
#[derive(Debug, Clone, Copy, PartialEq, Eq, Structural)]
pub struct PagerOptions {
    /// Whether ANSI styles are kept in what the pager shows.
    pub styles: bool,
}

impl Default for PagerOptions {
    fn default() -> (r: Self)
        ensures
            r.styles == false,
    {
        PagerOptions { styles: false }
    }
}

impl PagerOptions {
    /// Options that drop styles.
    pub fn new() -> (r: Self)
        ensures
            r.styles == false,
    {
        PagerOptions { styles: false }
    }

    /// The options with styles kept or dropped.
    pub fn with_styles(self, styles: bool) -> (r: Self)
        ensures
            r.styles == styles,
    {
        PagerOptions { styles }
    }
}

/// Output collected for a pager.
pub struct PagerContext {
    buffer: String,
    options: PagerOptions,
    console_options: ConsoleOptions,
}

/// A pager context as values.
pub struct PagerModel {
    /// The collected output.
    pub buffer: Seq<char>,
    /// The pager options.
    pub options: PagerOptions,
    /// The options output is rendered with.
    pub console_options: OptionsModel,
}

impl View for PagerContext {
    type V = PagerModel;

    closed spec fn view(&self) -> PagerModel {
        PagerModel { buffer: self.buffer@, options: self.options, console_options: self.console_options@ }
    }
}

impl PagerContext {
    /// A pager context rendering on the given options; without styles, the output is
    /// neither a terminal nor colored.
    pub fn new(console_options: ConsoleOptions, options: Option<PagerOptions>) -> (r: Self)
        ensures
            r@.buffer.len() == 0,
            r@.options == (match options { Some(o) => o, None => PagerOptions { styles: false } }),
            r@.console_options == (if r@.options.styles {
                console_options@
            } else {
                OptionsModel { is_terminal: false, color_system: None, ..console_options@ }
            }),
    {
        let options = match options {
            Some(o) => o,
            None => PagerOptions { styles: false },
        };
        let mut console_options = console_options;
        if !options.styles {
            console_options.is_terminal = false;
            console_options.color_system = None;
        }
        PagerContext { buffer: String::new(), options, console_options }
    }

    /// Add a line of text.
    pub fn print_text(&mut self, text: &str)
        ensures
            final(self)@ == (PagerModel { buffer: old(self)@.buffer + text@ + seq!['\n'], ..old(self)@ }),
    {
        push_str(&mut self.buffer, text);
        self.buffer.push('\n');
        assert(self.buffer@ =~= old(self).buffer@ + text@ + seq!['\n']);
    }

    /// Add what printing a renderable on a fresh console with the context's options
    /// writes.
    pub fn print(
        &mut self,
        renderable: &dyn Renderable,
        style: Option<Style>,
        justify: Option<JustifyMethod>,
        overflow: Option<OverflowMethod>,
        no_wrap: bool,
        end: &str,
    )
        ensures
            final(self)@.options == old(self)@.options,
            final(self)@.console_options == old(self)@.console_options,
            final(self)@.buffer == old(self)@.buffer + after_write(
                console_from(old(self)@.console_options),
                renderable.rendered(print_options(old(self)@.console_options, justify, overflow, no_wrap)),
                style,
                end@,
            ).out,
    {
        let mut console = Console::with_options(self.console_options.copy());
        let options = self.console_options.update(None, None, None, Some(justify), Some(overflow), Some(no_wrap), None, None, None);
        assert(options@ == print_options(self@.console_options, justify, overflow, no_wrap));
        let temp = Console::with_options(options.copy());
        let rendered = renderable.render(&temp, &options);
        console.write_rendered(rendered, style, end);
        let out = console.get_captured();
        push_str(&mut self.buffer, out.as_str());
    }

    /// The collected output as bytes.
    pub fn get_buffer(&self) -> (r: &[u8])
        ensures
            r@ == vstd::utf8::encode_utf8(self@.buffer),
    {
        self.buffer.as_str().as_bytes()
    }

    /// The collected output.
    pub fn get_buffer_string(&self) -> (r: String)
        ensures
            r@ == self@.buffer,
    {
        self.buffer.clone()
    }

    /// Drop the collected output.
    pub fn clear_buffer(&mut self)
        ensures
            final(self)@ == (PagerModel { buffer: Seq::empty(), ..old(self)@ }),
    {
        self.buffer = String::new();
    }
}

impl Console {
    /// A pager context rendering on the console's options.
    pub fn pager(&self, options: Option<PagerOptions>) -> (r: PagerContext)
        ensures
            r@.buffer.len() == 0,
            r@.options == (match options { Some(o) => o, None => PagerOptions { styles: false } }),
            r@.console_options == (if r@.options.styles {
                self@.options
            } else {
                OptionsModel { is_terminal: false, color_system: None, ..self@.options }
            }),
    {
        PagerContext::new(self.options.copy(), options)
    }
}


/// A console after a theme is pushed onto both of its theme stacks.
pub open spec fn pushed_theme(c: ConsoleModel, theme: Seq<(Seq<char>, Style)>) -> ConsoleModel {
    ConsoleModel {
        theme_stack: c.theme_stack.push(theme),
        options: OptionsModel { theme_stack: c.options.theme_stack.push(theme), ..c.options },
        ..c
    }
}

/// A console after the top theme is popped from both of its theme stacks.
pub open spec fn popped_theme(c: ConsoleModel) -> ConsoleModel {
    ConsoleModel {
        theme_stack: c.theme_stack.drop_last(),
        options: OptionsModel { theme_stack: c.options.theme_stack.drop_last(), ..c.options },
        ..c
    }
}

/// Popping a theme right after pushing one succeeds (both stacks then hold more than
/// their base theme, which every theme stack holds, as `theme_depths` states of every
/// console) and gives the console back as it was.
pub proof fn law_console_pop_after_push(c: ConsoleModel, theme: Seq<(Seq<char>, Style)>)
    requires
        c.theme_stack.len() >= 1,
        c.options.theme_stack.len() >= 1,
    ensures
        pushed_theme(c, theme).theme_stack.len() > 1,
        pushed_theme(c, theme).options.theme_stack.len() > 1,
        popped_theme(pushed_theme(c, theme)) == c,
{
    assert(c.theme_stack.push(theme).drop_last() =~= c.theme_stack);
    assert(c.options.theme_stack.push(theme).drop_last() =~= c.options.theme_stack);
}


/// What a print writes while live displays are shown: the controls that put the
/// cursor at the top of the live display last drawn (erasing it when it is drawn
/// anew), the printed segments in their style followed by the end, then the live
/// display drawn again below them.
pub open spec fn live_print_segments(live: &LiveManager, printed: Seq<SegView>, style: Option<Style>, end: Seq<char>, o: OptionsModel) -> Seq<SegView> {
    let styled = match style { Some(s) => apply_style_spec(printed, Some(s)), None => printed };
    let ended = styled + (if end.len() > 0 { seq![(end, None::<Style>, None::<ControlType>)] } else { Seq::empty() });
    position_cursor_spec(live@.shape, live.has_root()) + ended
        + (if live.has_root() { join_newlines(live.live_frame(o)) } else { Seq::empty() })
}

impl Console {
    /// Print a renderable as `print` does, with live displays: when the console is a
    /// terminal and live displays are shown, the cursor is first put at the top of the
    /// live display last drawn, and after the printed segments (in their style) and the
    /// end, the live display is drawn again; otherwise this is `print`.
    pub fn print_with_live(
        &mut self,
        live: &mut LiveManager,
        renderable: &dyn Renderable,
        style: Option<Style>,
        justify: Option<JustifyMethod>,
        overflow: Option<OverflowMethod>,
        no_wrap: bool,
        end: &str,
    )
        requires
            old(live).wf(),
        ensures
            final(live).wf(),
            final(self).hook_count() == old(self).hook_count(),
            old(self)@.quiet ==> final(self)@ == old(self)@ && final(live)@ == old(live)@,
            !old(self)@.quiet && !(is_terminal_spec(old(self)@) && old(live)@.stack.len() > 0) ==> final(live)@ == old(live)@,
            !old(self)@.quiet && !(is_terminal_spec(old(self)@) && old(live)@.stack.len() > 0) && old(self).hook_count() == 0
                ==> final(self)@ == after_write(
                    old(self)@,
                    renderable.rendered(print_options(old(self)@.options, justify, overflow, no_wrap)),
                    style,
                    end@,
                ),
            !old(self)@.quiet && is_terminal_spec(old(self)@) && old(live)@.stack.len() > 0 && old(self).hook_count() == 0 ==> ({
                let o = print_options(old(self)@.options, justify, overflow, no_wrap);
                &&& final(self)@ == after_write(
                    old(self)@,
                    live_print_segments(old(live), renderable.rendered(o), style, end@, o),
                    None,
                    Seq::empty(),
                )
                &&& final(live)@ == if old(live).has_root() {
                    LiveModel {
                        shape: Some((
                            crate::wrap::satw(max_line_width(old(live).live_frame(o))) as usize,
                            old(live).live_frame(o).len() as usize,
                        )),
                        ..old(live)@
                    }
                } else {
                    old(live)@
                }
            }),
    {
        if self.quiet {
            return;
        }
        let live_active = self.is_terminal() && live.live_depth() > 0;
        let options = self.options.update(None, None, None, Some(justify), Some(overflow), Some(no_wrap), None, None, None);
        assert(options@ == print_options(self@.options, justify, overflow, no_wrap));
        let temp = Console::with_options(options.copy());
        let rendered = renderable.render(&temp, &options);
        if !live_active {
            let hooked = self.apply_render_hooks(rendered);
            self.write_rendered(hooked, style, end);
            return;
        }
        let ghost rv = segs_view(rendered@);
        let styled = match style {
            Some(s) => Segment::apply_style_to_segments(rendered, Some(s), None),
            None => rendered,
        };
        assert(segs_view(styled@) =~= match style { Some(s) => apply_style_spec(rv, Some(s)), None => rv });
        let mut segments = self.apply_render_hooks(styled);
        let ghost sv = segs_view(segments@);
        if !end.is_empty() {
            segments.push(Segment::new(end));
        }
        assert(segs_view(segments@) =~= sv + (if end@.len() > 0 { seq![(end@, None::<Style>, None::<ControlType>)] } else { Seq::<SegView>::empty() }));
        let previous = live.live_shape();
        let (live_segments, full_redraw) = live.render_live_segments(&options);
        let cursor = LiveManager::live_position_cursor_for_shape(previous, full_redraw);
        let mut wrapped: Vec<Segment> = Vec::new();
        let ghost parts = (segs_view(cursor@), segs_view(segments@), segs_view(live_segments@));
        push_all(&mut wrapped, &cursor);
        push_all(&mut wrapped, &segments);
        push_all(&mut wrapped, &live_segments);
        assert(segs_view(wrapped@) =~= parts.0 + parts.1 + parts.2);
        proof {
            reveal_strlit("");
        }
        self.write_rendered(wrapped, None, "");
    }
}


/// A rule fills the width and no more: without a title it is `width` box-drawing
/// characters; with a title that fits (its cell width and a space on each side at most
/// `width`), the title stands between two equal runs of box-drawing characters whose
/// length, with the title and its spaces, comes to `width` or one less (the odd cell
/// left over); with a title too wide there are no runs.
pub proof fn law_rule_fits(title: Seq<char>, width: nat)
    ensures
        rule_line(None, width) == repeat_spec('\u{2500}', width) + seq!['\n'],
        ({
            let tw = crate::cells::unicode_str_width(title) as int;
            exists|p: nat| {
                &&& rule_line(Some(title), width) == repeat_spec('\u{2500}', p) + seq![' '] + title + seq![' ']
                    + repeat_spec('\u{2500}', p) + seq!['\n']
                &&& tw + 2 <= width ==> 2 * p + tw + 2 <= width <= 2 * p + tw + 3
                &&& tw + 2 > width ==> p == 0
            }
        }),
{
    let tw = crate::cells::unicode_str_width(title) as int;
    let p: nat = if width - (tw + 2) > 0 { ((width - (tw + 2)) / 2) as nat } else { 0 };
    assert(rule_line(Some(title), width) == repeat_spec('\u{2500}', p) + seq![' '] + title + seq![' ']
        + repeat_spec('\u{2500}', p) + seq!['\n']);
}
} // verus!
