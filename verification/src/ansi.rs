//! Decoding of ANSI escape sequences into styled text.
use vstd::prelude::*;
use crate::color::SimpleColor;
use crate::style::{Style, null_style};
use crate::text::{Text, Span, SpanView, spans_view};
use crate::strs::{all_digits, dec_value, parse_unsigned, split_chars, split_spec, str_chars, string_from_chars};

verus! {

broadcast use vstd::string::group_string_axioms;

/// Decodes text with ANSI escape codes into styled text; the style carries over from
/// one line to the next.
#[derive(Debug, Clone, Copy, PartialEq, Eq, Structural)]
pub struct AnsiDecoder {
    /// The current style.
    pub style: Style,
}

impl Default for AnsiDecoder {
    fn default() -> (r: Self)
        ensures
            r.style == null_style(),
    {
        AnsiDecoder { style: Style::new() }
    }
}

/// The value of one SGR parameter: empty is 0, digits give their value (at most 255,
/// 0 when it does not fit in 16 bits); anything else is dropped.
pub open spec fn sgr_param(part: Seq<char>) -> Option<u16> {
    if part.len() == 0 {
        Some(0)
    } else if !all_digits(part) {
        None
    } else if dec_value(part) <= 65535 {
        Some((if dec_value(part) <= 255 { dec_value(part) } else { 255 }) as u16)
    } else {
        Some(0)
    }
}

/// The values of the parameters.
pub open spec fn sgr_values(parts: Seq<Seq<char>>) -> Seq<u16>
    decreases parts.len(),
{
    if parts.len() == 0 {
        Seq::empty()
    } else {
        sgr_values(parts.drop_last()) + match sgr_param(parts.last()) {
            Some(v) => seq![v],
            None => Seq::empty(),
        }
    }
}

/// The SGR codes of a parameter string (a lone reset when none is valid).
pub open spec fn sgr_codes(params: Seq<char>) -> Seq<u16> {
    let v = sgr_values(split_spec(params, ';'));
    if v.len() == 0 { seq![0u16] } else { v }
}

/// One plain SGR code applied to a style.
pub open spec fn apply_code(st: Style, code: u16) -> Style {
    if code == 0 {
        null_style()
    } else if code == 1 {
        Style { bold: Some(true), ..st }
    } else if code == 2 {
        Style { dim: Some(true), ..st }
    } else if code == 3 {
        Style { italic: Some(true), ..st }
    } else if code == 4 {
        Style { underline: Some(true), ..st }
    } else if code == 5 {
        Style { blink: Some(true), ..st }
    } else if code == 7 {
        Style { reverse: Some(true), ..st }
    } else if code == 9 {
        Style { strike: Some(true), ..st }
    } else if code == 22 {
        Style { bold: None, dim: None, ..st }
    } else if code == 23 {
        Style { italic: None, ..st }
    } else if code == 24 {
        Style { underline: None, ..st }
    } else if code == 25 {
        Style { blink: None, ..st }
    } else if code == 27 {
        Style { reverse: None, ..st }
    } else if code == 29 {
        Style { strike: None, ..st }
    } else if 30 <= code <= 37 {
        Style { color: Some(SimpleColor::Standard((code - 30) as u8)), ..st }
    } else if code == 39 {
        Style { color: None, ..st }
    } else if 40 <= code <= 47 {
        Style { bgcolor: Some(SimpleColor::Standard((code - 40) as u8)), ..st }
    } else if code == 49 {
        Style { bgcolor: None, ..st }
    } else if 90 <= code <= 97 {
        Style { color: Some(SimpleColor::Standard((code - 90 + 8) as u8)), ..st }
    } else if 100 <= code <= 107 {
        Style { bgcolor: Some(SimpleColor::Standard((code - 100 + 8) as u8)), ..st }
    } else {
        st
    }
}

/// A color set as foreground (38) or background (48).
pub open spec fn set_color(st: Style, code: u16, c: SimpleColor) -> Style {
    if code == 38 { Style { color: Some(c), ..st } } else { Style { bgcolor: Some(c), ..st } }
}

/// The codes from `i` on applied to a style: 38 and 48 take `5;n` (a 256-color index)
/// or `2;r;g;b` (a true color); an incomplete extended color ends the codes.
pub open spec fn sgr_from(st: Style, c: Seq<u16>, i: int) -> Style
    decreases c.len() - i,
{
    if i < 0 || i >= c.len() {
        st
    } else {
        let code = c[i];
        if code == 38 || code == 48 {
            if i + 1 >= c.len() {
                st
            } else if c[i + 1] == 5 {
                if i + 2 < c.len() {
                    sgr_from(set_color(st, code, SimpleColor::EightBit(c[i + 2] as u8)), c, i + 3)
                } else {
                    st
                }
            } else if c[i + 1] == 2 {
                if i + 4 < c.len() {
                    sgr_from(set_color(st, code, SimpleColor::Rgb { r: c[i + 2] as u8, g: c[i + 3] as u8, b: c[i + 4] as u8 }), c, i + 5)
                } else {
                    st
                }
            } else {
                sgr_from(st, c, i + 2)
            }
        } else {
            sgr_from(apply_code(st, code), c, i + 1)
        }
    }
}

/// The style after an SGR sequence with these parameters.
pub open spec fn apply_sgr_spec(st: Style, params: Seq<char>) -> Style {
    sgr_from(st, sgr_codes(params), 0)
}

fn sgr_param_exec(part: &Vec<char>) -> (r: Option<u16>)
    ensures
        r == sgr_param(part@),
{
    if part.len() == 0 {
        return Some(0);
    }
    let mut k: usize = 0;
    while k < part.len()
        invariant
            k <= part.len(),
            forall|j: int| 0 <= j < k ==> '0' <= #[trigger] part@[j] && part@[j] <= '9',
        decreases part.len() - k,
    {
        if !('0' <= part[k] && part[k] <= '9') {
            return None;
        }
        k = k + 1;
    }
    match parse_unsigned(part.as_slice(), 65535) {
        Some(v) => Some(if v <= 255 { v as u16 } else { 255 }),
        None => Some(0),
    }
}

fn sgr_codes_exec(params: &Vec<char>) -> (r: Vec<u16>)
    ensures
        r@ == sgr_codes(params@),
{
    let parts = split_chars(params.as_slice(), ';');
    let ghost ps = split_spec(params@, ';');
    let mut out: Vec<u16> = Vec::new();
    let mut i: usize = 0;
    while i < parts.len()
        invariant
            i <= parts.len(),
            parts@.len() == ps.len(),
            forall|q: int| 0 <= q < parts@.len() ==> #[trigger] parts@[q]@ == ps[q],
            out@ =~= sgr_values(ps.take(i as int)),
        decreases parts.len() - i,
    {
        assert(ps.take(i + 1).drop_last() =~= ps.take(i as int));
        assert(ps.take(i + 1).last() == parts@[i as int]@);
        match sgr_param_exec(&parts[i]) {
            Some(v) => {
                out.push(v);
            },
            None => {},
        }
        i = i + 1;
    }
    assert(ps.take(i as int) =~= ps);
    if out.len() == 0 {
        out.push(0);
        assert(out@ =~= seq![0u16]);
    }
    out
}

fn apply_code_exec(st: Style, code: u16) -> (r: Style)
    ensures
        r == apply_code(st, code),
{
    if code == 0 {
        Style::new()
    } else if code == 1 {
        Style { bold: Some(true), ..st }
    } else if code == 2 {
        Style { dim: Some(true), ..st }
    } else if code == 3 {
        Style { italic: Some(true), ..st }
    } else if code == 4 {
        Style { underline: Some(true), ..st }
    } else if code == 5 {
        Style { blink: Some(true), ..st }
    } else if code == 7 {
        Style { reverse: Some(true), ..st }
    } else if code == 9 {
        Style { strike: Some(true), ..st }
    } else if code == 22 {
        Style { bold: None, dim: None, ..st }
    } else if code == 23 {
        Style { italic: None, ..st }
    } else if code == 24 {
        Style { underline: None, ..st }
    } else if code == 25 {
        Style { blink: None, ..st }
    } else if code == 27 {
        Style { reverse: None, ..st }
    } else if code == 29 {
        Style { strike: None, ..st }
    } else if 30 <= code && code <= 37 {
        Style { color: Some(SimpleColor::Standard((code - 30) as u8)), ..st }
    } else if code == 39 {
        Style { color: None, ..st }
    } else if 40 <= code && code <= 47 {
        Style { bgcolor: Some(SimpleColor::Standard((code - 40) as u8)), ..st }
    } else if code == 49 {
        Style { bgcolor: None, ..st }
    } else if 90 <= code && code <= 97 {
        Style { color: Some(SimpleColor::Standard((code - 90 + 8) as u8)), ..st }
    } else if 100 <= code && code <= 107 {
        Style { bgcolor: Some(SimpleColor::Standard((code - 100 + 8) as u8)), ..st }
    } else {
        st
    }
}

/// Apply an SGR parameter string to a style.
pub fn apply_sgr(st: Style, params: &Vec<char>) -> (r: Style)
    ensures
        r == apply_sgr_spec(st, params@),
{
    let c = sgr_codes_exec(params);
    let mut s = st;
    let mut i: usize = 0;
    while i < c.len()
        invariant
            i <= c.len(),
            c@ == sgr_codes(params@),
            sgr_from(s, c@, i as int) == sgr_from(st, c@, 0),
        decreases c.len() - i,
    {
        let code = c[i];
        if code == 38 || code == 48 {
            if i + 1 >= c.len() {
                assert(sgr_from(s, c@, i as int) == s);
                return s;
            }
            let ct = c[i + 1];
            if ct == 5 {
                if i + 2 < c.len() {
                    let col = SimpleColor::EightBit(c[i + 2] as u8);
                    s = if code == 38 { Style { color: Some(col), ..s } } else { Style { bgcolor: Some(col), ..s } };
                    i = i + 3;
                } else {
                    assert(sgr_from(s, c@, i as int) == s);
                    return s;
                }
            } else if ct == 2 {
                if c.len() - i > 4 {
                    let col = SimpleColor::Rgb { r: c[i + 2] as u8, g: c[i + 3] as u8, b: c[i + 4] as u8 };
                    s = if code == 38 { Style { color: Some(col), ..s } } else { Style { bgcolor: Some(col), ..s } };
                    i = i + 5;
                } else {
                    assert(sgr_from(s, c@, i as int) == s);
                    return s;
                }
            } else {
                i = i + 2;
            }
        } else {
            s = apply_code_exec(s, code);
            i = i + 1;
        }
    }
    s
}

/// Where a CSI sequence's final byte (`@` to `~`) is, from `k` on.
pub open spec fn csi_final(s: Seq<char>, k: int) -> Option<int>
    decreases s.len() - k,
{
    if k < 0 || k >= s.len() {
        None
    } else if 0x40 <= (s[k] as u32) && (s[k] as u32) <= 0x7e {
        Some(k)
    } else {
        csi_final(s, k + 1)
    }
}

/// Where an OSC sequence ends from `k` on: at BEL (one character) or `ESC \` (two).
pub open spec fn osc_end(s: Seq<char>, k: int) -> Option<(int, int)>
    decreases s.len() - k,
{
    if k < 0 || k >= s.len() {
        None
    } else if s[k] == '\x07' {
        Some((k, k + 1))
    } else if s[k] == '\x1b' && k + 1 < s.len() && s[k + 1] == '\\' {
        Some((k, k + 2))
    } else {
        osc_end(s, k + 1)
    }
}

/// The text after the last carriage return.
pub open spec fn after_last_cr(s: Seq<char>) -> Seq<char>
    decreases s.len(),
{
    if s.len() == 0 {
        s
    } else if s.last() == '\r' {
        Seq::empty()
    } else {
        after_last_cr(s.drop_last()).push(s.last())
    }
}

/// Decoding state: the plain text, the spans, and the style.
pub type DState = (Seq<char>, Seq<SpanView>, Style);

/// Text appended in the current style (a span when the style sets anything).
pub open spec fn add_plain(d: DState, t: Seq<char>) -> DState {
    let (plain, spans, st) = d;
    if t.len() == 0 {
        d
    } else if st == null_style() {
        (plain + t, spans, st)
    } else {
        (plain + t, spans.push((plain.len() as usize, (plain.len() + t.len()) as usize, st)), st)
    }
}

/// Decoding of `s` from `index`, with plain text pending from `start`: escape
/// sequences are taken out (SGR sequences change the style, other CSI and OSC
/// sequences are skipped, a malformed one skips its two introducing characters; an
/// escape character that ends the text gives the text from the last plain start
/// again, the escape character with it).
pub open spec fn decode_from(s: Seq<char>, index: int, start: int, d: DState) -> DState
    decreases s.len() - index,
{
    if index < 0 || start < 0 || start > index || index >= s.len() {
        if 0 <= start < s.len() { add_plain(d, s.subrange(start, s.len() as int)) } else { d }
    } else if s[index] != '\x1b' {
        decode_from(s, index + 1, start, d)
    } else {
        let d1 = if start < index { add_plain(d, s.subrange(start, index)) } else { d };
        if index + 1 >= s.len() {
            if d1.0.len() + (s.len() - start) <= usize::MAX {
                add_plain(d1, s.subrange(start, s.len() as int))
            } else {
                d1
            }
        } else if s[index + 1] == '[' {
            match csi_final(s, index + 2) {
                Some(f) => {
                    proof {
                        lemma_csi_final(s, index + 2);
                    }
                    let d2 = if s[f] == 'm' { (d1.0, d1.1, apply_sgr_spec(d1.2, s.subrange(index + 2, f))) } else { d1 };
                    decode_from(s, f + 1, f + 1, d2)
                },
                None => decode_from(s, index + 2, index + 2, d1),
            }
        } else if s[index + 1] == ']' {
            match osc_end(s, index + 2) {
                Some((_e, next)) => {
                    proof {
                        lemma_osc_end(s, index + 2);
                    }
                    decode_from(s, next, next, d1)
                },
                None => decode_from(s, index + 2, index + 2, d1),
            }
        } else {
            decode_from(s, index + 2, index + 2, d1)
        }
    }
}

/// What decoding a line gives from a style: the text after its last carriage return,
/// decoded.
pub open spec fn decode_line_spec(line: Seq<char>, st: Style) -> DState {
    decode_from(after_last_cr(line), 0, 0, (Seq::empty(), Seq::empty(), st))
}

pub proof fn lemma_csi_final(s: Seq<char>, k: int)
    requires
        0 <= k,
    ensures
        csi_final(s, k) matches Some(f) ==> k <= f < s.len(),
    decreases s.len() - k,
{
    if k < s.len() && !(0x40 <= (s[k] as u32) && (s[k] as u32) <= 0x7e) {
        lemma_csi_final(s, k + 1);
    }
}

pub proof fn lemma_osc_end(s: Seq<char>, k: int)
    requires
        0 <= k,
    ensures
        osc_end(s, k) matches Some((e, n)) ==> k <= e < n <= s.len(),
    decreases s.len() - k,
{
    if k < s.len() && s[k] != '\x07' && !(s[k] == '\x1b' && k + 1 < s.len() && s[k + 1] == '\\') {
        lemma_osc_end(s, k + 1);
    }
}

fn csi_final_exec(s: &Vec<char>, k: usize) -> (r: Option<usize>)
    ensures
        match (r, csi_final(s@, k as int)) {
            (Some(a), Some(b)) => a as int == b,
            (None, None) => true,
            _ => false,
        },
{
    let mut j = k;
    while j < s.len()
        invariant
            k <= j,
            csi_final(s@, j as int) == csi_final(s@, k as int),
        decreases s.len() - j,
    {
        let u = s[j] as u32;
        if 0x40 <= u && u <= 0x7e {
            return Some(j);
        }
        j = j + 1;
    }
    None
}

fn osc_end_exec(s: &Vec<char>, k: usize) -> (r: Option<(usize, usize)>)
    ensures
        match (r, osc_end(s@, k as int)) {
            (Some(a), Some(b)) => a.0 as int == b.0 && a.1 as int == b.1,
            (None, None) => true,
            _ => false,
        },
{
    let mut j = k;
    while j < s.len()
        invariant
            k <= j,
            osc_end(s@, j as int) == osc_end(s@, k as int),
        decreases s.len() - j,
    {
        if s[j] == '\x07' {
            return Some((j, j + 1));
        }
        if s[j] == '\x1b' && j + 1 < s.len() && s[j + 1] == '\\' {
            return Some((j, j + 2));
        }
        j = j + 1;
    }
    None
}

fn after_last_cr_exec(s: &Vec<char>) -> (r: Vec<char>)
    ensures
        r@ == after_last_cr(s@),
{
    let mut out: Vec<char> = Vec::new();
    let mut i: usize = 0;
    while i < s.len()
        invariant
            i <= s.len(),
            out@ == after_last_cr(s@.take(i as int)),
        decreases s.len() - i,
    {
        assert(s@.take(i + 1).drop_last() =~= s@.take(i as int));
        if s[i] == '\r' {
            out = Vec::new();
            assert(out@ =~= Seq::<char>::empty());
        } else {
            out.push(s[i]);
        }
        i = i + 1;
    }
    assert(s@.take(i as int) =~= s@);
    out
}

impl AnsiDecoder {
    /// A decoder starting without style.
    pub fn new() -> (r: Self)
        ensures
            r.style == null_style(),
    {
        AnsiDecoder { style: Style::new() }
    }

    fn add_plain_exec(&self, t: &mut Text, chars: &Vec<char>, from: usize, to: usize)
        requires
            from <= to <= chars.len(),
            old(t)@.plain.len() + (to - from) <= usize::MAX,
            old(t)@.style is None,
        ensures
            ({
                let d = add_plain((old(t)@.plain, old(t)@.spans, self.style), chars@.subrange(from as int, to as int));
                final(t)@.plain == d.0 && final(t)@.spans == d.1 && final(t)@.style is None
            }),
    {
        let s = crate::strs::sub_string(chars.as_slice(), from, to);
        if from == to {
            assert(s@.len() == 0);
            return;
        }
        let st = if self.style.is_null() { None } else { Some(self.style) };
        t.append(s.as_str(), st);
    }

    /// Decode one line: the text after its last carriage return, with escape sequences
    /// taken out and the text between them styled by the SGR codes seen so far.
    pub fn decode_line(&mut self, line: &str) -> (r: Text)
        ensures
            ({
                let d = decode_line_spec(line@, old(self).style);
                r@.plain == d.0 && r@.spans == d.1 && final(self).style == d.2 && r@.style is None
            }),
    {
        let lc = str_chars(line);
        let s = after_last_cr_exec(&lc);
        let mut out = Text::new();
        let mut index: usize = 0;
        let mut start: usize = 0;
        let ghost init = (Seq::<char>::empty(), Seq::<SpanView>::empty(), self.style);
        assert(s@ == after_last_cr(line@));
        assert(decode_from(s@, 0, 0, init) == decode_line_spec(line@, old(self).style));
        assert(out@.spans =~= Seq::<SpanView>::empty());
        assert(out@.plain =~= Seq::<char>::empty());
        while index < s.len()
            invariant_except_break
                decode_from(s@, 0, 0, init) == decode_line_spec(line@, old(self).style),
                start <= index,
                index <= s.len(),
                out@.plain.len() <= start,
                out@.style is None,
                decode_from(s@, index as int, start as int, (out@.plain, out@.spans, self.style))
                    == decode_from(s@, 0, 0, init),
            ensures
                out@.style is None,
                decode_from(s@, index as int, start as int, (out@.plain, out@.spans, self.style))
                    == decode_from(s@, 0, 0, init),
                index >= s.len(),
                start <= s.len(),
                out@.plain.len() <= start,
            decreases s.len() - index,
        {
            if s[index] != '\x1b' {
                index = index + 1;
                continue;
            }
            let ghost d0 = (out@.plain, out@.spans, self.style);
            if start < index {
                self.add_plain_exec(&mut out, &s, start, index);
            }
            if index + 1 >= s.len() {
                if (out.len() as u128) + ((s.len() - start) as u128) <= usize::MAX as u128 {
                    self.add_plain_exec(&mut out, &s, start, s.len());
                }
                assert(decode_from(s@, 0, 0, init) == (out@.plain, out@.spans, self.style));
                return out;
            }
            if s[index + 1] == '[' {
                match csi_final_exec(&s, index + 2) {
                    Some(f) => {
                        proof {
                            lemma_csi_final(s@, index + 2);
                        }
                        if s[f] == 'm' {
                            let params = crate::strs::sub_chars(s.as_slice(), index + 2, f);
                            self.style = apply_sgr(self.style, &params);
                        }
                        index = f + 1;
                        start = f + 1;
                    },
                    None => {
                        index = index + 2;
                        start = index;
                    },
                }
            } else if s[index + 1] == ']' {
                match osc_end_exec(&s, index + 2) {
                    Some((_e, next)) => {
                        proof {
                            lemma_osc_end(s@, index + 2);
                        }
                        index = next;
                        start = next;
                    },
                    None => {
                        index = index + 2;
                        start = index;
                    },
                }
            } else {
                index = index + 2;
                start = index;
            }
        }
        let ghost dd = (out@.plain, out@.spans, self.style);
        if start < s.len() {
            self.add_plain_exec(&mut out, &s, start, s.len());
        }
        assert(decode_from(s@, index as int, start as int, dd) == (out@.plain, out@.spans, self.style));
        out
    }

    /// Decode text line by line (lines end at `\n`, `\r\n` or `\r`); the style carries
    /// over from line to line.
    pub fn decode(&mut self, terminal_text: &str) -> (r: Vec<Text>)
        ensures
            r@.len() == splitlines(terminal_text@).len(),
            forall|i: int| 0 <= i < r@.len() ==> #[trigger] decoded_line(r@[i], splitlines(terminal_text@), old(self).style, i),
            final(self).style == style_after(splitlines(terminal_text@), old(self).style, splitlines(terminal_text@).len()),
    {
        let lines = splitlines_exec(terminal_text);
        let ghost ls = lines@.map_values(|x: String| x@);
        let ghost st0 = self.style;
        let mut out: Vec<Text> = Vec::new();
        let mut i: usize = 0;
        while i < lines.len()
            invariant
                i <= lines.len(),
                ls == lines@.map_values(|x: String| x@),
                ls == splitlines(terminal_text@),
                st0 == old(self).style,
                out@.len() == i,
                self.style == style_after(ls, st0, i as nat),
                forall|k: int| 0 <= k < i ==> #[trigger] decoded_line(out@[k], ls, st0, k),
            decreases lines.len() - i,
        {
            assert(ls[i as int] == lines@[i as int]@);
            let t = self.decode_line(lines[i].as_str());
            out.push(t);
            assert(decoded_line(out@[i as int], ls, st0, i as int));
            assert(style_after(ls, st0, (i + 1) as nat) == decode_line_spec(ls[i as int], style_after(ls, st0, i as nat)).2);
            i = i + 1;
        }
        out
    }
}

/// The style after decoding the first `n` lines from style `st`.
pub open spec fn style_after(lines: Seq<Seq<char>>, st: Style, n: nat) -> Style
    decreases n,
{
    if n == 0 {
        st
    } else {
        decode_line_spec(lines[n - 1], style_after(lines, st, (n - 1) as nat)).2
    }
}

/// Whether a text is line `i` of `lines` decoded after the lines before it.
pub open spec fn decoded_line(t: Text, lines: Seq<Seq<char>>, st: Style, i: int) -> bool {
    let d = decode_line_spec(lines[i], style_after(lines, st, i as nat));
    t@.plain == d.0 && t@.spans == d.1 && t@.style is None
}

/// Lines split at `\n`, `\r\n` or `\r`, from position `i` with the current line
/// starting at `start`; no empty line after a final line break.
pub open spec fn splitlines_from(s: Seq<char>, i: int, start: int, lines: Seq<Seq<char>>) -> Seq<Seq<char>>
    decreases s.len() - i,
{
    if i < 0 || start < 0 || start > i || i >= s.len() {
        if 0 <= start < s.len() { lines.push(s.subrange(start, s.len() as int)) } else { lines }
    } else if s[i] == '\n' {
        splitlines_from(s, i + 1, i + 1, lines.push(s.subrange(start, i)))
    } else if s[i] == '\r' {
        let next = if i + 1 < s.len() && s[i + 1] == '\n' { i + 2 } else { i + 1 };
        splitlines_from(s, next, next, lines.push(s.subrange(start, i)))
    } else {
        splitlines_from(s, i + 1, start, lines)
    }
}

/// The lines of text.
pub open spec fn splitlines(s: Seq<char>) -> Seq<Seq<char>> {
    splitlines_from(s, 0, 0, Seq::empty())
}

fn splitlines_exec(text: &str) -> (r: Vec<String>)
    ensures
        r@.map_values(|x: String| x@) == splitlines(text@),
{
    let s = str_chars(text);
    let mut out: Vec<String> = Vec::new();
    let mut start: usize = 0;
    let mut i: usize = 0;
    assert(out@.map_values(|x: String| x@) =~= Seq::<Seq<char>>::empty());
    while i < s.len()
        invariant
            start <= i <= s.len(),
            s@ == text@,
            splitlines_from(s@, i as int, start as int, out@.map_values(|x: String| x@)) == splitlines(s@),
        decreases s.len() - i,
    {
        let ghost ov = out@.map_values(|x: String| x@);
        if s[i] == '\n' {
            let l = crate::strs::sub_string(s.as_slice(), start, i);
            out.push(l);
            assert(out@.map_values(|x: String| x@) =~= ov.push(s@.subrange(start as int, i as int)));
            i = i + 1;
            start = i;
        } else if s[i] == '\r' {
            let l = crate::strs::sub_string(s.as_slice(), start, i);
            out.push(l);
            assert(out@.map_values(|x: String| x@) =~= ov.push(s@.subrange(start as int, i as int)));
            if i + 1 < s.len() && s[i + 1] == '\n' {
                i = i + 2;
            } else {
                i = i + 1;
            }
            start = i;
        } else {
            i = i + 1;
        }
    }
    if start < s.len() {
        let ghost ov = out@.map_values(|x: String| x@);
        let l = crate::strs::sub_string(s.as_slice(), start, s.len());
        out.push(l);
        assert(out@.map_values(|x: String| x@) =~= ov.push(s@.subrange(start as int, s@.len() as int)));
    }
    out
}


/// A style with its foreground set to a standard color.
pub open spec fn with_fg(st: Style, n: int) -> Style {
    Style { color: Some(SimpleColor::Standard(n as u8)), ..st }
}

/// A style with its background set to a standard color.
pub open spec fn with_bg(st: Style, n: int) -> Style {
    Style { bgcolor: Some(SimpleColor::Standard(n as u8)), ..st }
}

/// The bright color codes are the normal ones eight colors up: SGR `90`-`97` set the
/// foreground to the bright standard colors 8-15, and `100`-`107` set the background
/// to them, exactly where `30`-`37` and `40`-`47` set colors 0-7; nothing else of the
/// style changes.
pub proof fn law_bright_colors(st: Style, code: u16)
    ensures
        30 <= code <= 37 ==> apply_code(st, code) == with_fg(st, code - 30),
        90 <= code <= 97 ==> apply_code(st, code) == with_fg(st, code - 90 + 8),
        40 <= code <= 47 ==> apply_code(st, code) == with_bg(st, code - 40),
        100 <= code <= 107 ==> apply_code(st, code) == with_bg(st, code - 100 + 8),
        90 <= code <= 97 ==> apply_code(st, code) == with_fg(st, 8 + (code - 60 - 30)),
{
}


/// The attribute codes switch one attribute on (1 bold, 2 dim, 3 italic, 4 underline,
/// 5 blink, 7 reverse, 9 strike) or off again (22 bold and dim, 23 italic, 24
/// underline, 25 blink, 27 reverse, 29 strike); 39 and 49 take the foreground and
/// background color away; 0 resets everything.
pub proof fn law_attribute_codes(st: Style)
    ensures
        apply_code(st, 0) == null_style(),
        apply_code(st, 1) == (Style { bold: Some(true), ..st }),
        apply_code(st, 2) == (Style { dim: Some(true), ..st }),
        apply_code(st, 3) == (Style { italic: Some(true), ..st }),
        apply_code(st, 4) == (Style { underline: Some(true), ..st }),
        apply_code(st, 5) == (Style { blink: Some(true), ..st }),
        apply_code(st, 7) == (Style { reverse: Some(true), ..st }),
        apply_code(st, 9) == (Style { strike: Some(true), ..st }),
        apply_code(st, 22) == (Style { bold: None, dim: None, ..st }),
        apply_code(st, 23) == (Style { italic: None, ..st }),
        apply_code(st, 24) == (Style { underline: None, ..st }),
        apply_code(st, 25) == (Style { blink: None, ..st }),
        apply_code(st, 27) == (Style { reverse: None, ..st }),
        apply_code(st, 29) == (Style { strike: None, ..st }),
        apply_code(st, 39) == (Style { color: None, ..st }),
        apply_code(st, 49) == (Style { bgcolor: None, ..st }),
{
}
} // verus!
