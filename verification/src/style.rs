//! Text styles: colors and attributes such as bold or italic.
use vstd::prelude::*;
use crate::color::{ColorSystem, SimpleColor, simple_parse_spec, simple_to_color_value, downgrade_spec,
    simple_from_parts, ansi_codes_spec, views};
use crate::strs::{push_str, str_chars, string_from_chars, split_on_white_spec, str_eq};

verus! {

/// A terminal text style. Every attribute is optional: `None` leaves the attribute
/// to the surrounding style.
#[derive(Debug, Clone, Copy, PartialEq, Eq, Hash, Structural)]
pub struct Style {
    /// Foreground color.
    pub color: Option<SimpleColor>,
    /// Background color.
    pub bgcolor: Option<SimpleColor>,
    /// Bold text.
    pub bold: Option<bool>,
    /// Dim text.
    pub dim: Option<bool>,
    /// Italic text.
    pub italic: Option<bool>,
    /// Underlined text.
    pub underline: Option<bool>,
    /// Blinking text.
    pub blink: Option<bool>,
    /// Reversed foreground and background.
    pub reverse: Option<bool>,
    /// Struck-through text.
    pub strike: Option<bool>,
}

/// The style that sets nothing.
pub open spec fn null_style() -> Style {
    Style {
        color: None,
        bgcolor: None,
        bold: None,
        dim: None,
        italic: None,
        underline: None,
        blink: None,
        reverse: None,
        strike: None,
    }
}

/// `b` wins where it is set; `a` elsewhere.
pub open spec fn or_else<T>(b: Option<T>, a: Option<T>) -> Option<T> {
    match b {
        Some(x) => Some(x),
        None => a,
    }
}

/// Style `b` layered on top of style `a`.
pub open spec fn combine_spec(a: Style, b: Style) -> Style {
    Style {
        color: or_else(b.color, a.color),
        bgcolor: or_else(b.bgcolor, a.bgcolor),
        bold: or_else(b.bold, a.bold),
        dim: or_else(b.dim, a.dim),
        italic: or_else(b.italic, a.italic),
        underline: or_else(b.underline, a.underline),
        blink: or_else(b.blink, a.blink),
        reverse: or_else(b.reverse, a.reverse),
        strike: or_else(b.strike, a.strike),
    }
}

fn pick<T: Copy>(b: Option<T>, a: Option<T>) -> (r: Option<T>)
    ensures
        r == or_else(b, a),
{
    match b {
        Some(x) => Some(x),
        None => a,
    }
}

impl Default for Style {
    fn default() -> (r: Self)
        ensures
            r == null_style(),
    {
        Style::new()
    }
}

/// One SGR parameter when `cond` holds.
pub open spec fn code_if(cond: bool, n: nat) -> Seq<Seq<char>> {
    if cond { seq![crate::strs::decimal_spec(n)] } else { Seq::empty() }
}

/// The SGR attribute parameters of a style, in the order bold, dim, italic, underline,
/// blink, reverse, strike.
pub open spec fn attribute_codes(s: Style) -> Seq<Seq<char>> {
    Seq::<Seq<char>>::empty()
        + code_if(s.bold == Some(true), 1)
        + code_if(s.dim == Some(true), 2)
        + code_if(s.italic == Some(true), 3)
        + code_if(s.underline == Some(true), 4)
        + code_if(s.blink == Some(true), 5)
        + code_if(s.reverse == Some(true), 7)
        + code_if(s.strike == Some(true), 9)
}

/// The SGR parameters of a color in a color system.
#[verifier::opaque]
pub open spec fn color_codes(c: SimpleColor, system: ColorSystem, foreground: bool) -> Seq<Seq<char>> {
    let v = simple_to_color_value(c);
    let d = downgrade_spec(v.1, v.2, v.3, system);
    let s = simple_to_color_value(simple_from_parts(d.0, d.1, d.2));
    ansi_codes_spec(s.1, s.2, s.3, foreground)
}

/// All SGR parameters of a style.
pub open spec fn style_codes(s: Style, system: Option<ColorSystem>) -> Seq<Seq<char>> {
    attribute_codes(s)
        + (match (s.color, system) {
            (Some(c), Some(sys)) => color_codes(c, sys, true),
            _ => Seq::empty(),
        })
        + (match (s.bgcolor, system) {
            (Some(c), Some(sys)) => color_codes(c, sys, false),
            _ => Seq::empty(),
        })
}

/// Parameters joined with `;`.
pub open spec fn join_codes(codes: Seq<Seq<char>>) -> Seq<char>
    decreases codes.len(),
{
    if codes.len() == 0 {
        Seq::empty()
    } else if codes.len() == 1 {
        codes[0]
    } else {
        join_codes(codes.drop_last()) + seq![';'] + codes.last()
    }
}

/// Text wrapped in the escape sequence of a style and a reset, or unchanged when the
/// style selects nothing.
pub open spec fn render_spec(s: Style, text: Seq<char>, system: Option<ColorSystem>) -> Seq<char> {
    let codes = style_codes(s, system);
    if codes.len() == 0 || text.len() == 0 {
        text
    } else {
        seq!['\x1b', '['] + join_codes(codes) + seq!['m'] + text + seq!['\x1b', '[', '0', 'm']
    }
}

/// A style attribute named by a word of a style definition.
pub enum Attribute {
    /// `bold` / `b`
    Bold,
    /// `dim` / `d`
    Dim,
    /// `italic` / `i`
    Italic,
    /// `underline` / `u`
    Underline,
    /// `blink`
    Blink,
    /// `reverse` / `r`
    Reverse,
    /// `strike` / `s`
    Strike,
}

/// The attribute that a word names.
pub open spec fn attribute_of(w: Seq<char>) -> Option<Attribute> {
    if w == "bold"@ || w == "b"@ {
        Some(Attribute::Bold)
    } else if w == "dim"@ || w == "d"@ {
        Some(Attribute::Dim)
    } else if w == "italic"@ || w == "i"@ {
        Some(Attribute::Italic)
    } else if w == "underline"@ || w == "u"@ {
        Some(Attribute::Underline)
    } else if w == "blink"@ {
        Some(Attribute::Blink)
    } else if w == "reverse"@ || w == "r"@ {
        Some(Attribute::Reverse)
    } else if w == "strike"@ || w == "s"@ {
        Some(Attribute::Strike)
    } else {
        None
    }
}

/// `s` with one attribute set to `v`.
pub open spec fn set_attribute(s: Style, a: Attribute, v: bool) -> Style {
    match a {
        Attribute::Bold => Style { bold: Some(v), ..s },
        Attribute::Dim => Style { dim: Some(v), ..s },
        Attribute::Italic => Style { italic: Some(v), ..s },
        Attribute::Underline => Style { underline: Some(v), ..s },
        Attribute::Blink => Style { blink: Some(v), ..s },
        Attribute::Reverse => Style { reverse: Some(v), ..s },
        Attribute::Strike => Style { strike: Some(v), ..s },
    }
}

/// The style that the words `words[i..]` define on top of `s`, if they are well formed:
/// attribute names, `not <attribute>`, `on <color>`, `none`, or a color.
pub open spec fn parse_words(words: Seq<Seq<char>>, i: int, s: Style) -> Option<Style>
    decreases words.len() - i,
{
    if i >= words.len() || i < 0 {
        Some(s)
    } else {
        let w = words[i];
        if w == "on"@ {
            if i + 1 < words.len() {
                match simple_parse_spec(words[i + 1]) {
                    Some(c) => parse_words(words, i + 2, Style { bgcolor: Some(c), ..s }),
                    None => None,
                }
            } else {
                None
            }
        } else if w == "not"@ {
            if i + 1 < words.len() {
                match attribute_of(words[i + 1]) {
                    Some(a) => parse_words(words, i + 2, set_attribute(s, a, false)),
                    None => None,
                }
            } else {
                None
            }
        } else if w == "none"@ {
            parse_words(words, i + 1, s)
        } else {
            match attribute_of(w) {
                Some(a) => parse_words(words, i + 1, set_attribute(s, a, true)),
                None => match simple_parse_spec(w) {
                    Some(c) => parse_words(words, i + 1, Style { color: Some(c), ..s }),
                    None => None,
                },
            }
        }
    }
}

/// What `Style::parse` returns for a style definition such as `"bold red on blue"`.
pub open spec fn parse_style_spec(def: Seq<char>) -> Option<Style> {
    parse_words(split_on_white_spec(crate::strs::unicode_lowercase(def)), 0, null_style())
}

fn attribute_of_exec(w: &str) -> (r: Option<Attribute>)
    ensures
        r == attribute_of(w@),
{
    if str_eq(w, "bold") || str_eq(w, "b") {
        Some(Attribute::Bold)
    } else if str_eq(w, "dim") || str_eq(w, "d") {
        Some(Attribute::Dim)
    } else if str_eq(w, "italic") || str_eq(w, "i") {
        Some(Attribute::Italic)
    } else if str_eq(w, "underline") || str_eq(w, "u") {
        Some(Attribute::Underline)
    } else if str_eq(w, "blink") {
        Some(Attribute::Blink)
    } else if str_eq(w, "reverse") || str_eq(w, "r") {
        Some(Attribute::Reverse)
    } else if str_eq(w, "strike") || str_eq(w, "s") {
        Some(Attribute::Strike)
    } else {
        None
    }
}

fn set_attribute_exec(s: Style, a: Attribute, v: bool) -> (r: Style)
    ensures
        r == set_attribute(s, a, v),
{
    match a {
        Attribute::Bold => Style { bold: Some(v), ..s },
        Attribute::Dim => Style { dim: Some(v), ..s },
        Attribute::Italic => Style { italic: Some(v), ..s },
        Attribute::Underline => Style { underline: Some(v), ..s },
        Attribute::Blink => Style { blink: Some(v), ..s },
        Attribute::Reverse => Style { reverse: Some(v), ..s },
        Attribute::Strike => Style { strike: Some(v), ..s },
    }
}

fn push_code(out: &mut String, first: &mut bool, code: &str)
    ensures
        final(out)@ == old(out)@ + (if *old(first) { Seq::empty() } else { seq![';'] }) + code@,
        *final(first) == false,
{
    if !*first {
        out.push(';');
    }
    push_str(out, code);
    *first = false;
}

impl Style {
    /// A style that sets nothing.
    pub fn new() -> (r: Self)
        ensures
            r == null_style(),
    {
        Style {
            color: None,
            bgcolor: None,
            bold: None,
            dim: None,
            italic: None,
            underline: None,
            blink: None,
            reverse: None,
            strike: None,
        }
    }

    /// Whether the style sets nothing.
    pub fn is_null(&self) -> (r: bool)
        ensures
            r == (*self == null_style()),
    {
        self.color.is_none() && self.bgcolor.is_none() && self.bold.is_none() && self.dim.is_none()
            && self.italic.is_none() && self.underline.is_none() && self.blink.is_none()
            && self.reverse.is_none() && self.strike.is_none()
    }

    /// This style with bold set.
    pub fn with_bold(self, v: bool) -> (r: Self)
        ensures
            r == (Style { bold: Some(v), ..self }),
    {
        Style { bold: Some(v), ..self }
    }

    /// This style with dim set.
    pub fn with_dim(self, v: bool) -> (r: Self)
        ensures
            r == (Style { dim: Some(v), ..self }),
    {
        Style { dim: Some(v), ..self }
    }

    /// This style with italic set.
    pub fn with_italic(self, v: bool) -> (r: Self)
        ensures
            r == (Style { italic: Some(v), ..self }),
    {
        Style { italic: Some(v), ..self }
    }

    /// This style with underline set.
    pub fn with_underline(self, v: bool) -> (r: Self)
        ensures
            r == (Style { underline: Some(v), ..self }),
    {
        Style { underline: Some(v), ..self }
    }

    /// This style with blink set.
    pub fn with_blink(self, v: bool) -> (r: Self)
        ensures
            r == (Style { blink: Some(v), ..self }),
    {
        Style { blink: Some(v), ..self }
    }

    /// This style with reverse set.
    pub fn with_reverse(self, v: bool) -> (r: Self)
        ensures
            r == (Style { reverse: Some(v), ..self }),
    {
        Style { reverse: Some(v), ..self }
    }

    /// This style with strike set.
    pub fn with_strike(self, v: bool) -> (r: Self)
        ensures
            r == (Style { strike: Some(v), ..self }),
    {
        Style { strike: Some(v), ..self }
    }

    /// This style with a foreground color.
    pub fn with_color(self, c: SimpleColor) -> (r: Self)
        ensures
            r == (Style { color: Some(c), ..self }),
    {
        Style { color: Some(c), ..self }
    }

    /// This style with a background color.
    pub fn with_bgcolor(self, c: SimpleColor) -> (r: Self)
        ensures
            r == (Style { bgcolor: Some(c), ..self }),
    {
        Style { bgcolor: Some(c), ..self }
    }

    /// `other` layered on top of this style: where `other` sets an attribute it wins.
    pub fn combine(&self, other: &Style) -> (r: Self)
        ensures
            r == combine_spec(*self, *other),
    {
        Style {
            color: pick(other.color, self.color),
            bgcolor: pick(other.bgcolor, self.bgcolor),
            bold: pick(other.bold, self.bold),
            dim: pick(other.dim, self.dim),
            italic: pick(other.italic, self.italic),
            underline: pick(other.underline, self.underline),
            blink: pick(other.blink, self.blink),
            reverse: pick(other.reverse, self.reverse),
            strike: pick(other.strike, self.strike),
        }
    }

    /// Parse a style definition such as `"bold red on blue"` or `"not italic"`;
    /// `None` when a word is neither an attribute nor a color.
    pub fn parse(def: &str) -> (r: Option<Self>)
        ensures
            r == parse_style_spec(def@),
    {
        let lowered = crate::strs::to_lowercase(def);
        let chars = str_chars(lowered.as_str());
        let words = crate::strs::split_on_white(chars.as_slice());
        let ghost ws = split_on_white_spec(crate::strs::unicode_lowercase(def@));
        let mut s = Style::new();
        let mut i: usize = 0;
        while i < words.len()
            invariant
                words@.len() == ws.len(),
                forall|k: int| 0 <= k < ws.len() ==> #[trigger] words@[k]@ == ws[k],
                0 <= i <= words.len(),
                parse_words(ws, i as int, s) == parse_style_spec(def@),
            decreases words.len() - i,
        {
            let w = string_from_chars(words[i].as_slice());
            if crate::strs::str_eq(w.as_str(), "on") {
                if i + 1 < words.len() {
                    let c = string_from_chars(words[i + 1].as_slice());
                    match SimpleColor::parse(c.as_str()) {
                        Some(col) => {
                            s = Style { bgcolor: Some(col), ..s };
                            i = i + 2;
                        },
                        None => return None,
                    }
                } else {
                    return None;
                }
            } else if crate::strs::str_eq(w.as_str(), "not") {
                if i + 1 < words.len() {
                    let a = string_from_chars(words[i + 1].as_slice());
                    match attribute_of_exec(a.as_str()) {
                        Some(att) => {
                            s = set_attribute_exec(s, att, false);
                            i = i + 2;
                        },
                        None => return None,
                    }
                } else {
                    return None;
                }
            } else if crate::strs::str_eq(w.as_str(), "none") {
                i = i + 1;
            } else {
                match attribute_of_exec(w.as_str()) {
                    Some(att) => {
                        s = set_attribute_exec(s, att, true);
                        i = i + 1;
                    },
                    None => match SimpleColor::parse(w.as_str()) {
                        Some(col) => {
                            s = Style { color: Some(col), ..s };
                            i = i + 1;
                        },
                        None => return None,
                    },
                }
            }
        }
        Some(s)
    }

    /// The SGR parameters of this style's attributes.
    fn attribute_code_list(&self) -> (r: Vec<String>)
        ensures
            views(r@) == attribute_codes(*self),
    {
        let mut codes: Vec<String> = Vec::new();
        assert(views(codes@) =~= Seq::<Seq<char>>::empty());
        push_code_if(&mut codes, self.bold == Some(true), 1);
        push_code_if(&mut codes, self.dim == Some(true), 2);
        push_code_if(&mut codes, self.italic == Some(true), 3);
        push_code_if(&mut codes, self.underline == Some(true), 4);
        push_code_if(&mut codes, self.blink == Some(true), 5);
        push_code_if(&mut codes, self.reverse == Some(true), 7);
        push_code_if(&mut codes, self.strike == Some(true), 9);
        codes
    }

    /// The SGR parameters of this style.
    fn code_list(&self, color_system: Option<ColorSystem>) -> (r: Vec<String>)
        ensures
            views(r@) == style_codes(*self, color_system),
    {
        let mut codes = self.attribute_code_list();
        let ghost a = views(codes@);
        match (self.color, color_system) {
            (Some(c), Some(sys)) => {
                let mut more = color_code_list(c, sys, true);
                let ghost m = views(more@);
                codes.append(&mut more);
                assert(views(codes@) =~= a + m);
            },
            _ => {},
        }
        let ghost b = views(codes@);
        match (self.bgcolor, color_system) {
            (Some(c), Some(sys)) => {
                let mut more = color_code_list(c, sys, false);
                let ghost m = views(more@);
                codes.append(&mut more);
                assert(views(codes@) =~= b + m);
            },
            _ => {},
        }
        assert(views(codes@) =~= style_codes(*self, color_system));
        codes
    }

    /// `text` wrapped in the ANSI escape sequence of this style (colors downgraded to
    /// `color_system`, none when it is `None`) followed by a reset.
    pub fn render(&self, text: &str, color_system: Option<ColorSystem>) -> (r: String)
        ensures
            r@ == render_spec(*self, text@, color_system),
    {
        let codes = self.code_list(color_system);
        let tc = str_chars(text);
        if codes.len() == 0 || tc.len() == 0 {
            return crate::strs::owned(text);
        }
        let mut out = String::new();
        out.push('\x1b');
        out.push('[');
        let joined = join_strings(&codes);
        push_str(&mut out, joined.as_str());
        out.push('m');
        push_str(&mut out, text);
        out.push('\x1b');
        out.push('[');
        out.push('0');
        out.push('m');
        assert(out@ =~= render_spec(*self, text@, color_system));
        out
    }
}

/// The SGR parameters of a color downgraded to a color system.
pub(crate) fn color_code_list(c: SimpleColor, sys: ColorSystem, foreground: bool) -> (r: Vec<String>)
    ensures
        views(r@) == color_codes(c, sys, foreground),
{
    proof {
        reveal(color_codes);
    }
    c.downgrade(sys).get_ansi_codes(foreground)
}

pub(crate) fn push_code_if(codes: &mut Vec<String>, cond: bool, n: u64)
    ensures
        views(final(codes)@) == views(old(codes)@) + code_if(cond, n as nat),
{
    let ghost before = views(codes@);
    if cond {
        codes.push(crate::strs::u64_to_string(n));
        assert(views(codes@) =~= before + seq![crate::strs::decimal_spec(n as nat)]);
    } else {
        assert(views(codes@) =~= before + Seq::<Seq<char>>::empty());
    }
}

/// The strings joined with `;`.
pub fn join_strings(codes: &Vec<String>) -> (r: String)
    ensures
        r@ == join_codes(views(codes@)),
{
    let mut out = String::new();
    let mut i: usize = 0;
    assert(views(codes@).take(0) =~= Seq::<Seq<char>>::empty());
    while i < codes.len()
        invariant
            0 <= i <= codes.len(),
            out@ == join_codes(views(codes@).take(i as int)),
        decreases codes.len() - i,
    {
        let ghost before = out@;
        proof {
            let t = views(codes@).take(i + 1);
            assert(t.drop_last() =~= views(codes@).take(i as int));
            assert(t.last() == codes@[i as int]@);
        }
        if i > 0 {
            out.push(';');
        }
        push_str(&mut out, codes[i].as_str());
        i = i + 1;
        proof {
            if i == 1 {
                assert(views(codes@).take(1) =~= seq![codes@[0]@]);
                assert(out@ =~= codes@[0]@);
            } else {
                assert(out@ =~= before + seq![';'] + codes@[i - 1]@);
            }
        }
    }
    assert(views(codes@).take(codes@.len() as int) =~= views(codes@));
    out
}


/// Combining with the null style changes nothing, whichever side it stands on.
pub proof fn law_combine_null(s: Style)
    ensures
        combine_spec(null_style(), s) == s,
        combine_spec(s, null_style()) == s,
{
}

/// Combining styles is associative: `(a + b) + c` is `a + (b + c)`.
pub proof fn law_combine_assoc(a: Style, b: Style, c: Style)
    ensures
        combine_spec(combine_spec(a, b), c) == combine_spec(a, combine_spec(b, c)),
{
}

/// Combining a style with itself gives the style.
pub proof fn law_combine_idempotent(a: Style)
    ensures
        combine_spec(a, a) == a,
{
}

} // verus!
