//! Color types and color manipulation: named, 8-bit and truecolor colors,
//! parsing, palette matching, downgrading and ANSI code generation.
use vstd::prelude::*;
use crate::error::ParseError;
use crate::strs::{
    chars_start_with, chars_end_with, decimal_spec, hex2_spec, push_hex2, push_str,
    str_chars, str_eq, string_from_chars, sub_chars, to_lowercase, trim_chars, trim_spec,
    u64_to_string, unicode_lowercase, push_chars, debug_str, debug_str_spec, split_spec,
    parse_unsigned_spec,
};

verus! {

broadcast use vstd::string::group_string_axioms;

// ============================================================================
// ColorTriplet
// ============================================================================

/// RGB color triplet with red, green, and blue components (0-255).
#[derive(Debug, Clone, Copy, PartialEq, Eq, Hash, Structural)]
pub struct ColorTriplet {
    /// Red component (0-255).
    pub red: u8,
    /// Green component (0-255).
    pub green: u8,
    /// Blue component (0-255).
    pub blue: u8,
}

impl Default for ColorTriplet {
    fn default() -> (r: Self)
        ensures
            r == (ColorTriplet { red: 0, green: 0, blue: 0 }),
    {
        ColorTriplet { red: 0, green: 0, blue: 0 }
    }
}

/// The CSS-style hex form `#rrggbb` of a triplet.
pub open spec fn triplet_hex_spec(t: ColorTriplet) -> Seq<char> {
    seq!['#'] + hex2_spec(t.red) + hex2_spec(t.green) + hex2_spec(t.blue)
}

/// The `rgb(r,g,b)` form of a triplet.
pub open spec fn triplet_rgb_spec(t: ColorTriplet) -> Seq<char> {
    seq!['r', 'g', 'b', '('] + decimal_spec(t.red as nat) + seq![','] + decimal_spec(t.green as nat)
        + seq![','] + decimal_spec(t.blue as nat) + seq![')']
}

fn push_decimal(s: &mut String, n: u64)
    ensures
        final(s)@ == old(s)@ + decimal_spec(n as nat),
{
    let d = u64_to_string(n);
    push_str(s, d.as_str());
}

impl ColorTriplet {
    /// Create a new color triplet.
    pub fn new(red: u8, green: u8, blue: u8) -> (r: Self)
        ensures
            r == (ColorTriplet { red, green, blue }),
    {
        ColorTriplet { red, green, blue }
    }

    /// Get the color as a CSS-style hex string (e.g., "#ff0000").
    pub fn hex(&self) -> (r: String)
        ensures
            r@ == triplet_hex_spec(*self),
    {
        let mut s = String::new();
        s.push('#');
        push_hex2(&mut s, self.red);
        push_hex2(&mut s, self.green);
        push_hex2(&mut s, self.blue);
        assert(s@ =~= triplet_hex_spec(*self));
        s
    }

    /// Get the color as an RGB string (e.g., "rgb(255,0,0)").
    pub fn rgb(&self) -> (r: String)
        ensures
            r@ == triplet_rgb_spec(*self),
    {
        let mut s = String::new();
        s.push('r');
        s.push('g');
        s.push('b');
        s.push('(');
        push_decimal(&mut s, self.red as u64);
        s.push(',');
        push_decimal(&mut s, self.green as u64);
        s.push(',');
        push_decimal(&mut s, self.blue as u64);
        s.push(')');
        assert(s@ =~= triplet_rgb_spec(*self));
        s
    }
}

// ============================================================================
// ColorSystem / ColorType
// ============================================================================

/// The color system supported by a terminal.
#[derive(Debug, Clone, Copy, PartialEq, Eq, Hash, Structural)]
pub enum ColorSystem {
    /// 16 standard ANSI colors (colors 0-15).
    Standard,
    /// 256 colors (8-bit palette).
    EightBit,
    /// 24-bit RGB (truecolor).
    TrueColor,
    /// Windows legacy console colors.
    Windows,
}

/// Capability rank of a color system (Windows ranks as a 16-color system).
pub open spec fn system_rank(s: ColorSystem) -> nat {
    match s {
        ColorSystem::Standard => 1,
        ColorSystem::Windows => 1,
        ColorSystem::EightBit => 2,
        ColorSystem::TrueColor => 3,
    }
}

impl ColorSystem {
    /// Get the number of colors in this system.
    pub fn color_count(&self) -> (r: usize)
        ensures
            r == match *self {
                ColorSystem::Standard => 16usize,
                ColorSystem::EightBit => 256usize,
                ColorSystem::TrueColor => 16_777_216usize,
                ColorSystem::Windows => 16usize,
            },
    {
        match self {
            ColorSystem::Standard => 16,
            ColorSystem::EightBit => 256,
            ColorSystem::TrueColor => 16_777_216,
            ColorSystem::Windows => 16,
        }
    }

    /// Capability rank used when deciding whether a downgrade is needed.
    pub fn rank(&self) -> (r: u8)
        ensures
            r as nat == system_rank(*self),
    {
        match self {
            ColorSystem::Standard => 1,
            ColorSystem::Windows => 1,
            ColorSystem::EightBit => 2,
            ColorSystem::TrueColor => 3,
        }
    }
}

/// The type of color stored in a Color struct.
#[derive(Debug, Clone, Copy, PartialEq, Eq, Hash, Structural)]
pub enum ColorType {
    /// Default terminal color (no specific color set).
    Default,
    /// Standard ANSI color (index 0-15).
    Standard,
    /// 8-bit color (index 0-255).
    EightBit,
    /// 24-bit RGB (truecolor).
    TrueColor,
    /// Windows legacy console color.
    Windows,
}

impl Default for ColorType {
    fn default() -> (r: Self)
        ensures
            r == ColorType::Default,
    {
        ColorType::Default
    }
}

/// The color system of a color type.
pub open spec fn type_system(t: ColorType) -> ColorSystem {
    match t {
        ColorType::Default => ColorSystem::Standard,
        ColorType::Standard => ColorSystem::Standard,
        ColorType::EightBit => ColorSystem::EightBit,
        ColorType::TrueColor => ColorSystem::TrueColor,
        ColorType::Windows => ColorSystem::Windows,
    }
}

impl ColorType {
    /// Get the corresponding color system for this color type.
    pub fn system(&self) -> (r: ColorSystem)
        ensures
            r == type_system(*self),
    {
        match self {
            ColorType::Default => ColorSystem::Standard,
            ColorType::Standard => ColorSystem::Standard,
            ColorType::EightBit => ColorSystem::EightBit,
            ColorType::TrueColor => ColorSystem::TrueColor,
            ColorType::Windows => ColorSystem::Windows,
        }
    }
}

// ============================================================================
// Palettes
// ============================================================================

/// The weighted distance (squared) between two colors used for palette matching.
pub open spec fn color_distance(a: ColorTriplet, b: ColorTriplet) -> int {
    let red_mean = (a.red as int + b.red as int) / 2;
    let rd = a.red as int - b.red as int;
    let gd = a.green as int - b.green as int;
    let bd = a.blue as int - b.blue as int;
    ((512 + red_mean) * rd * rd) / 256 + 4 * gd * gd + ((767 - red_mean) * bd * bd) / 256
}

/// A palette of colors for color matching.
#[derive(Debug, Clone)]
pub struct Palette {
    colors: Vec<ColorTriplet>,
}

impl View for Palette {
    type V = Seq<ColorTriplet>;

    closed spec fn view(&self) -> Seq<ColorTriplet> {
        self.colors@
    }
}

/// Whether `i` is the first index of `colors` with the least distance to `t`.
pub open spec fn is_closest(colors: Seq<ColorTriplet>, t: ColorTriplet, i: int) -> bool {
    &&& 0 <= i < colors.len()
    &&& forall|j: int| 0 <= j < colors.len() ==> color_distance(colors[i], t) <= color_distance(#[trigger] colors[j], t)
    &&& forall|j: int| 0 <= j < i ==> color_distance(#[trigger] colors[j], t) > color_distance(colors[i], t)
}

proof fn lemma_weighted_square(w: int, d: int, e: int)
    requires
        d * d == e * e,
    ensures
        w * (d * d) == w * e * e,
{
    assert(w * (d * d) == w * (e * e)) by (nonlinear_arith) requires d * d == e * e;
    assert(w * (e * e) == w * e * e) by (nonlinear_arith);
}

fn distance_exec(a: ColorTriplet, b: ColorTriplet) -> (r: u64)
    ensures
        r as int == color_distance(a, b),
{
    let r1 = a.red as u64;
    let r2 = b.red as u64;
    let red_mean = (r1 + r2) / 2;
    let rd = if r1 >= r2 { r1 - r2 } else { r2 - r1 };
    let gd = if a.green >= b.green { (a.green - b.green) as u64 } else { (b.green - a.green) as u64 };
    let bd = if a.blue >= b.blue { (a.blue - b.blue) as u64 } else { (b.blue - a.blue) as u64 };
    assert(rd * rd == (a.red as int - b.red as int) * (a.red as int - b.red as int)) by (nonlinear_arith)
        requires rd as int == a.red as int - b.red as int || rd as int == b.red as int - a.red as int;
    assert(gd * gd == (a.green as int - b.green as int) * (a.green as int - b.green as int)) by (nonlinear_arith)
        requires gd as int == a.green as int - b.green as int || gd as int == b.green as int - a.green as int;
    assert(bd * bd == (a.blue as int - b.blue as int) * (a.blue as int - b.blue as int)) by (nonlinear_arith)
        requires bd as int == a.blue as int - b.blue as int || bd as int == b.blue as int - a.blue as int;
    assert(rd * rd <= 65025 && gd * gd <= 65025 && bd * bd <= 65025) by (nonlinear_arith)
        requires rd <= 255, gd <= 255, bd <= 255;
    assert((512 + red_mean) * (rd * rd) <= 767 * 65025) by (nonlinear_arith)
        requires red_mean <= 255, rd * rd <= 65025;
    assert((767 - red_mean) * (bd * bd) <= 767 * 65025) by (nonlinear_arith)
        requires red_mean <= 255, bd * bd <= 65025;
    proof {
        lemma_weighted_square(512 + red_mean as int, rd as int, a.red as int - b.red as int);
        lemma_weighted_square(767 - red_mean as int, bd as int, a.blue as int - b.blue as int);
        lemma_weighted_square(4, gd as int, a.green as int - b.green as int);
    }
    let x = (512 + red_mean) * (rd * rd) / 256;
    let y = 4 * (gd * gd);
    let z = (767 - red_mean) * (bd * bd) / 256;
    x + y + z
}

impl Palette {
    /// Create a new palette from a slice of RGB tuples.
    pub fn new(colors: &[(u8, u8, u8)]) -> (r: Self)
        ensures
            r@.len() == colors@.len(),
            forall|i: int| 0 <= i < colors@.len() ==> #[trigger] r@[i] == (ColorTriplet {
                red: colors@[i].0,
                green: colors@[i].1,
                blue: colors@[i].2,
            }),
    {
        let mut v: Vec<ColorTriplet> = Vec::new();
        let mut i: usize = 0;
        while i < colors.len()
            invariant
                0 <= i <= colors.len(),
                v@.len() == i,
                forall|j: int| 0 <= j < i ==> #[trigger] v@[j] == (ColorTriplet {
                    red: colors@[j].0,
                    green: colors@[j].1,
                    blue: colors@[j].2,
                }),
            decreases colors.len() - i,
        {
            let (r, g, b) = colors[i];
            v.push(ColorTriplet { red: r, green: g, blue: b });
            i = i + 1;
        }
        Palette { colors: v }
    }

    /// Get a color triplet by index.
    pub fn get(&self, index: usize) -> (r: Option<ColorTriplet>)
        ensures
            r == (if index < self@.len() { Some(self@[index as int]) } else { None }),
    {
        if index < self.colors.len() {
            Some(self.colors[index])
        } else {
            None
        }
    }

    /// Get the number of colors in the palette.
    pub fn len(&self) -> (r: usize)
        ensures
            r == self@.len(),
    {
        self.colors.len()
    }

    /// Check if the palette is empty.
    pub fn is_empty(&self) -> (r: bool)
        ensures
            r == (self@.len() == 0),
    {
        self.colors.len() == 0
    }

    /// Find the closest color index in the palette to the given triplet, using a
    /// weighted Euclidean distance in RGB space; the first of equally close colors wins.
    pub fn match_color(&self, triplet: ColorTriplet) -> (r: usize)
        ensures
            self@.len() == 0 ==> r == 0,
            self@.len() > 0 ==> is_closest(self@, triplet, r as int),
    {
        let n = self.colors.len();
        if n == 0 {
            return 0;
        }
        let mut best: usize = 0;
        let mut best_d = distance_exec(self.colors[0], triplet);
        let mut i: usize = 1;
        while i < n
            invariant
                n == self@.len(),
                1 <= i <= n,
                best < i,
                best_d as int == color_distance(self@[best as int], triplet),
                forall|j: int| 0 <= j < i ==> color_distance(self@[best as int], triplet) <= color_distance(#[trigger] self@[j], triplet),
                forall|j: int| 0 <= j < best ==> color_distance(#[trigger] self@[j], triplet) > color_distance(self@[best as int], triplet),
            decreases n - i,
        {
            let d = distance_exec(self.colors[i], triplet);
            if d < best_d {
                best = i;
                best_d = d;
            }
            i = i + 1;
        }
        best
    }
}

/// The 16 standard ANSI colors.
pub open spec fn standard_triplet(i: int) -> ColorTriplet {
    let (r, g, b): (u8, u8, u8) = if i == 0 { (0, 0, 0) } else if i == 1 { (170, 0, 0) } else if i == 2 { (0, 170, 0) }
        else if i == 3 { (170, 85, 0) } else if i == 4 { (0, 0, 170) } else if i == 5 { (170, 0, 170) }
        else if i == 6 { (0, 170, 170) } else if i == 7 { (170, 170, 170) } else if i == 8 { (85, 85, 85) }
        else if i == 9 { (255, 85, 85) } else if i == 10 { (85, 255, 85) } else if i == 11 { (255, 255, 85) }
        else if i == 12 { (85, 85, 255) } else if i == 13 { (255, 85, 255) } else if i == 14 { (85, 255, 255) }
        else { (255, 255, 255) };
    ColorTriplet { red: r, green: g, blue: b }
}

/// The 16 colors of the Windows 10 console.
pub open spec fn windows_triplet(i: int) -> ColorTriplet {
    let (r, g, b): (u8, u8, u8) = if i == 0 { (12, 12, 12) } else if i == 1 { (197, 15, 31) } else if i == 2 { (19, 161, 14) }
        else if i == 3 { (193, 156, 0) } else if i == 4 { (0, 55, 218) } else if i == 5 { (136, 23, 152) }
        else if i == 6 { (58, 150, 221) } else if i == 7 { (204, 204, 204) } else if i == 8 { (118, 118, 118) }
        else if i == 9 { (231, 72, 86) } else if i == 10 { (22, 198, 12) } else if i == 11 { (249, 241, 165) }
        else if i == 12 { (59, 120, 255) } else if i == 13 { (180, 0, 158) } else if i == 14 { (97, 214, 214) }
        else { (242, 242, 242) };
    ColorTriplet { red: r, green: g, blue: b }
}

/// The first 16 entries of the 256-color palette.
pub open spec fn eight_bit_low_triplet(i: int) -> ColorTriplet {
    let (r, g, b): (u8, u8, u8) = if i == 0 { (0, 0, 0) } else if i == 1 { (128, 0, 0) } else if i == 2 { (0, 128, 0) }
        else if i == 3 { (128, 128, 0) } else if i == 4 { (0, 0, 128) } else if i == 5 { (128, 0, 128) }
        else if i == 6 { (0, 128, 128) } else if i == 7 { (192, 192, 192) } else if i == 8 { (128, 128, 128) }
        else if i == 9 { (255, 0, 0) } else if i == 10 { (0, 255, 0) } else if i == 11 { (255, 255, 0) }
        else if i == 12 { (0, 0, 255) } else if i == 13 { (255, 0, 255) } else if i == 14 { (0, 255, 255) }
        else { (255, 255, 255) };
    ColorTriplet { red: r, green: g, blue: b }
}

/// Component level `k` (0..=5) of the 6x6x6 color cube.
pub open spec fn cube_level(k: int) -> int {
    if k == 0 { 0 } else { 55 + 40 * k }
}

/// Entry `i` (0..=255) of the 256-color palette: 16 system colors, a 6x6x6 cube, then 24 grays.
pub open spec fn eight_bit_triplet(i: int) -> ColorTriplet {
    if i < 16 {
        eight_bit_low_triplet(i)
    } else if i < 232 {
        let k = i - 16;
        ColorTriplet {
            red: cube_level(k / 36) as u8,
            green: cube_level((k / 6) % 6) as u8,
            blue: cube_level(k % 6) as u8,
        }
    } else {
        let v = (8 + 10 * (i - 232)) as u8;
        ColorTriplet { red: v, green: v, blue: v }
    }
}

fn table16(i: u8, which: u8) -> (r: ColorTriplet)
    requires
        i < 16,
        which < 3,
    ensures
        which == 0 ==> r == standard_triplet(i as int),
        which == 1 ==> r == windows_triplet(i as int),
        which == 2 ==> r == eight_bit_low_triplet(i as int),
{
    let (r, g, b): (u8, u8, u8) = if which == 0 {
        if i == 0 { (0, 0, 0) } else if i == 1 { (170, 0, 0) } else if i == 2 { (0, 170, 0) }
        else if i == 3 { (170, 85, 0) } else if i == 4 { (0, 0, 170) } else if i == 5 { (170, 0, 170) }
        else if i == 6 { (0, 170, 170) } else if i == 7 { (170, 170, 170) } else if i == 8 { (85, 85, 85) }
        else if i == 9 { (255, 85, 85) } else if i == 10 { (85, 255, 85) } else if i == 11 { (255, 255, 85) }
        else if i == 12 { (85, 85, 255) } else if i == 13 { (255, 85, 255) } else if i == 14 { (85, 255, 255) }
        else { (255, 255, 255) }
    } else if which == 1 {
        if i == 0 { (12, 12, 12) } else if i == 1 { (197, 15, 31) } else if i == 2 { (19, 161, 14) }
        else if i == 3 { (193, 156, 0) } else if i == 4 { (0, 55, 218) } else if i == 5 { (136, 23, 152) }
        else if i == 6 { (58, 150, 221) } else if i == 7 { (204, 204, 204) } else if i == 8 { (118, 118, 118) }
        else if i == 9 { (231, 72, 86) } else if i == 10 { (22, 198, 12) } else if i == 11 { (249, 241, 165) }
        else if i == 12 { (59, 120, 255) } else if i == 13 { (180, 0, 158) } else if i == 14 { (97, 214, 214) }
        else { (242, 242, 242) }
    } else {
        if i == 0 { (0, 0, 0) } else if i == 1 { (128, 0, 0) } else if i == 2 { (0, 128, 0) }
        else if i == 3 { (128, 128, 0) } else if i == 4 { (0, 0, 128) } else if i == 5 { (128, 0, 128) }
        else if i == 6 { (0, 128, 128) } else if i == 7 { (192, 192, 192) } else if i == 8 { (128, 128, 128) }
        else if i == 9 { (255, 0, 0) } else if i == 10 { (0, 255, 0) } else if i == 11 { (255, 255, 0) }
        else if i == 12 { (0, 0, 255) } else if i == 13 { (255, 0, 255) } else if i == 14 { (0, 255, 255) }
        else { (255, 255, 255) }
    };
    ColorTriplet { red: r, green: g, blue: b }
}

/// Entry `i` of the standard 16-color palette.
pub fn standard_color(i: u8) -> (r: ColorTriplet)
    requires
        i < 16,
    ensures
        r == standard_triplet(i as int),
{
    table16(i, 0)
}

/// Entry `i` of the Windows console palette.
pub fn windows_color(i: u8) -> (r: ColorTriplet)
    requires
        i < 16,
    ensures
        r == windows_triplet(i as int),
{
    table16(i, 1)
}

fn cube_level_exec(k: u8) -> (r: u8)
    requires
        k < 6,
    ensures
        r as int == cube_level(k as int),
{
    if k == 0 { 0 } else { 55 + 40 * k }
}

/// Entry `i` of the 256-color palette.
pub fn eight_bit_color(i: u8) -> (r: ColorTriplet)
    ensures
        r == eight_bit_triplet(i as int),
{
    if i < 16 {
        table16(i, 2)
    } else if i < 232 {
        let k = i - 16;
        ColorTriplet {
            red: cube_level_exec(k / 36),
            green: cube_level_exec((k / 6) % 6),
            blue: cube_level_exec(k % 6),
        }
    } else {
        let v = 8 + 10 * (i - 232);
        ColorTriplet { red: v, green: v, blue: v }
    }
}

fn palette_from(n: u8, which: u8) -> (p: Palette)
    requires
        which < 3,
        which < 2 ==> n <= 16,
    ensures
        p@.len() == (if which == 2 { 256 } else { n as int }),
        forall|i: int| 0 <= i < p@.len() ==> #[trigger] p@[i] == (if which == 0 { standard_triplet(i) }
            else if which == 1 { windows_triplet(i) } else { eight_bit_triplet(i) }),
{
    let mut v: Vec<ColorTriplet> = Vec::new();
    let total: u16 = if which == 2 { 256 } else { n as u16 };
    let mut i: u16 = 0;
    while i < total
        invariant
            which < 3,
            total == (if which == 2 { 256 } else { n as u16 }),
            which < 2 ==> total <= 16,
            0 <= i <= total,
            v@.len() == i,
            forall|j: int| 0 <= j < i ==> #[trigger] v@[j] == (if which == 0 { standard_triplet(j) }
                else if which == 1 { windows_triplet(j) } else { eight_bit_triplet(j) }),
        decreases total - i,
    {
        let t = if which == 2 { eight_bit_color(i as u8) } else { table16(i as u8, which) };
        v.push(t);
        i = i + 1;
    }
    Palette { colors: v }
}

/// The standard 16 ANSI color palette.
pub fn standard_palette() -> (p: Palette)
    ensures
        p@.len() == 16,
        forall|i: int| 0 <= i < 16 ==> #[trigger] p@[i] == standard_triplet(i),
{
    palette_from(16, 0)
}

/// The Windows 10 console color palette.
pub fn windows_palette() -> (p: Palette)
    ensures
        p@.len() == 16,
        forall|i: int| 0 <= i < 16 ==> #[trigger] p@[i] == windows_triplet(i),
{
    palette_from(16, 1)
}

/// The 256-color (8-bit) palette.
pub fn eight_bit_palette() -> (p: Palette)
    ensures
        p@.len() == 256,
        forall|i: int| 0 <= i < 256 ==> #[trigger] p@[i] == eight_bit_triplet(i),
{
    palette_from(0, 2)
}

} // verus!

verus! {

// ============================================================================
// ANSI color names
// ============================================================================

/// The names of the ANSI colors and their color numbers.
#[verifier::opaque]
pub open spec fn color_name_table() -> Seq<(&'static str, u8)> {
    seq![
        ("black", 0u8), ("red", 1u8), ("green", 2u8), ("yellow", 3u8),
        ("blue", 4u8), ("magenta", 5u8), ("cyan", 6u8), ("white", 7u8),
        ("bright_black", 8u8), ("bright_red", 9u8), ("bright_green", 10u8), ("bright_yellow", 11u8),
        ("bright_blue", 12u8), ("bright_magenta", 13u8), ("bright_cyan", 14u8), ("bright_white", 15u8),
        ("grey0", 16u8), ("gray0", 16u8), ("navy_blue", 17u8), ("dark_blue", 18u8),
        ("blue3", 20u8), ("blue1", 21u8), ("dark_green", 22u8), ("deep_sky_blue4", 25u8),
        ("dodger_blue3", 26u8), ("dodger_blue2", 27u8), ("green4", 28u8), ("spring_green4", 29u8),
        ("turquoise4", 30u8), ("deep_sky_blue3", 32u8), ("dodger_blue1", 33u8), ("green3", 40u8),
        ("spring_green3", 41u8), ("dark_cyan", 36u8), ("light_sea_green", 37u8), ("deep_sky_blue2", 38u8),
        ("deep_sky_blue1", 39u8), ("spring_green2", 47u8), ("cyan3", 43u8), ("dark_turquoise", 44u8),
        ("turquoise2", 45u8), ("green1", 46u8), ("spring_green1", 48u8), ("medium_spring_green", 49u8),
        ("cyan2", 50u8), ("cyan1", 51u8), ("dark_red", 88u8), ("deep_pink4", 125u8),
        ("purple4", 55u8), ("purple3", 56u8), ("blue_violet", 57u8), ("orange4", 94u8),
        ("grey37", 59u8), ("gray37", 59u8), ("medium_purple4", 60u8), ("slate_blue3", 62u8),
        ("royal_blue1", 63u8), ("chartreuse4", 64u8), ("dark_sea_green4", 71u8), ("pale_turquoise4", 66u8),
        ("steel_blue", 67u8), ("steel_blue3", 68u8), ("cornflower_blue", 69u8), ("chartreuse3", 76u8),
        ("cadet_blue", 73u8), ("sky_blue3", 74u8), ("steel_blue1", 81u8), ("pale_green3", 114u8),
        ("sea_green3", 78u8), ("aquamarine3", 79u8), ("medium_turquoise", 80u8), ("chartreuse2", 112u8),
        ("sea_green2", 83u8), ("sea_green1", 85u8), ("aquamarine1", 122u8), ("dark_slate_gray2", 87u8),
        ("dark_magenta", 91u8), ("dark_violet", 128u8), ("purple", 129u8), ("light_pink4", 95u8),
        ("plum4", 96u8), ("medium_purple3", 98u8), ("slate_blue1", 99u8), ("yellow4", 106u8),
        ("wheat4", 101u8), ("grey53", 102u8), ("gray53", 102u8), ("light_slate_grey", 103u8),
        ("light_slate_gray", 103u8), ("medium_purple", 104u8), ("light_slate_blue", 105u8), ("dark_olive_green3", 149u8),
        ("dark_sea_green", 108u8), ("light_sky_blue3", 110u8), ("sky_blue2", 111u8), ("dark_sea_green3", 150u8),
        ("dark_slate_gray3", 116u8), ("sky_blue1", 117u8), ("chartreuse1", 118u8), ("light_green", 120u8),
        ("pale_green1", 156u8), ("dark_slate_gray1", 123u8), ("red3", 160u8), ("medium_violet_red", 126u8),
        ("magenta3", 164u8), ("dark_orange3", 166u8), ("indian_red", 167u8), ("hot_pink3", 168u8),
        ("medium_orchid3", 133u8), ("medium_orchid", 134u8), ("medium_purple2", 140u8), ("dark_goldenrod", 136u8),
        ("light_salmon3", 173u8), ("rosy_brown", 138u8), ("grey63", 139u8), ("gray63", 139u8),
        ("medium_purple1", 141u8), ("gold3", 178u8), ("dark_khaki", 143u8), ("navajo_white3", 144u8),
        ("grey69", 145u8), ("gray69", 145u8), ("light_steel_blue3", 146u8), ("light_steel_blue", 147u8),
        ("yellow3", 184u8), ("dark_sea_green2", 157u8), ("light_cyan3", 152u8), ("light_sky_blue1", 153u8),
        ("green_yellow", 154u8), ("dark_olive_green2", 155u8), ("dark_sea_green1", 193u8), ("pale_turquoise1", 159u8),
        ("deep_pink3", 162u8), ("magenta2", 200u8), ("hot_pink2", 169u8), ("orchid", 170u8),
        ("medium_orchid1", 207u8), ("orange3", 172u8), ("light_pink3", 174u8), ("pink3", 175u8),
        ("plum3", 176u8), ("violet", 177u8), ("light_goldenrod3", 179u8), ("tan", 180u8),
        ("misty_rose3", 181u8), ("thistle3", 182u8), ("plum2", 183u8), ("khaki3", 185u8),
        ("light_goldenrod2", 222u8), ("light_yellow3", 187u8), ("grey84", 188u8), ("gray84", 188u8),
        ("light_steel_blue1", 189u8), ("yellow2", 190u8), ("dark_olive_green1", 192u8), ("honeydew2", 194u8),
        ("light_cyan1", 195u8), ("red1", 196u8), ("deep_pink2", 197u8), ("deep_pink1", 199u8),
        ("magenta1", 201u8), ("orange_red1", 202u8), ("indian_red1", 204u8), ("hot_pink", 206u8),
        ("dark_orange", 208u8), ("salmon1", 209u8), ("light_coral", 210u8), ("pale_violet_red1", 211u8),
        ("orchid2", 212u8), ("orchid1", 213u8), ("orange1", 214u8), ("sandy_brown", 215u8),
        ("light_salmon1", 216u8), ("light_pink1", 217u8), ("pink1", 218u8), ("plum1", 219u8),
        ("gold1", 220u8), ("navajo_white1", 223u8), ("misty_rose1", 224u8), ("thistle1", 225u8),
        ("yellow1", 226u8), ("light_goldenrod1", 227u8), ("khaki1", 228u8), ("wheat1", 229u8),
        ("cornsilk1", 230u8), ("grey100", 231u8), ("gray100", 231u8), ("grey3", 232u8),
        ("gray3", 232u8), ("grey7", 233u8), ("gray7", 233u8), ("grey11", 234u8),
        ("gray11", 234u8), ("grey15", 235u8), ("gray15", 235u8), ("grey19", 236u8),
        ("gray19", 236u8), ("grey23", 237u8), ("gray23", 237u8), ("grey27", 238u8),
        ("gray27", 238u8), ("grey30", 239u8), ("gray30", 239u8), ("grey35", 240u8),
        ("gray35", 240u8), ("grey39", 241u8), ("gray39", 241u8), ("grey42", 242u8),
        ("gray42", 242u8), ("grey46", 243u8), ("gray46", 243u8), ("grey50", 244u8),
        ("gray50", 244u8), ("grey54", 245u8), ("gray54", 245u8), ("grey58", 246u8),
        ("gray58", 246u8), ("grey62", 247u8), ("gray62", 247u8), ("grey66", 248u8),
        ("gray66", 248u8), ("grey70", 249u8), ("gray70", 249u8), ("grey74", 250u8),
        ("gray74", 250u8), ("grey78", 251u8), ("gray78", 251u8), ("grey82", 252u8),
        ("gray82", 252u8), ("grey85", 253u8), ("gray85", 253u8), ("grey89", 254u8),
        ("gray89", 254u8), ("grey93", 255u8), ("gray93", 255u8), ("grey", 8u8),
        ("gray", 8u8),
    ]
}

/// The name table as a vector.
fn color_name_table_exec() -> (v: Vec<(&'static str, u8)>)
    ensures
        v@ == color_name_table(),
{
    let v: Vec<(&'static str, u8)> = vec![
        ("black", 0u8), ("red", 1u8), ("green", 2u8), ("yellow", 3u8),
        ("blue", 4u8), ("magenta", 5u8), ("cyan", 6u8), ("white", 7u8),
        ("bright_black", 8u8), ("bright_red", 9u8), ("bright_green", 10u8), ("bright_yellow", 11u8),
        ("bright_blue", 12u8), ("bright_magenta", 13u8), ("bright_cyan", 14u8), ("bright_white", 15u8),
        ("grey0", 16u8), ("gray0", 16u8), ("navy_blue", 17u8), ("dark_blue", 18u8),
        ("blue3", 20u8), ("blue1", 21u8), ("dark_green", 22u8), ("deep_sky_blue4", 25u8),
        ("dodger_blue3", 26u8), ("dodger_blue2", 27u8), ("green4", 28u8), ("spring_green4", 29u8),
        ("turquoise4", 30u8), ("deep_sky_blue3", 32u8), ("dodger_blue1", 33u8), ("green3", 40u8),
        ("spring_green3", 41u8), ("dark_cyan", 36u8), ("light_sea_green", 37u8), ("deep_sky_blue2", 38u8),
        ("deep_sky_blue1", 39u8), ("spring_green2", 47u8), ("cyan3", 43u8), ("dark_turquoise", 44u8),
        ("turquoise2", 45u8), ("green1", 46u8), ("spring_green1", 48u8), ("medium_spring_green", 49u8),
        ("cyan2", 50u8), ("cyan1", 51u8), ("dark_red", 88u8), ("deep_pink4", 125u8),
        ("purple4", 55u8), ("purple3", 56u8), ("blue_violet", 57u8), ("orange4", 94u8),
        ("grey37", 59u8), ("gray37", 59u8), ("medium_purple4", 60u8), ("slate_blue3", 62u8),
        ("royal_blue1", 63u8), ("chartreuse4", 64u8), ("dark_sea_green4", 71u8), ("pale_turquoise4", 66u8),
        ("steel_blue", 67u8), ("steel_blue3", 68u8), ("cornflower_blue", 69u8), ("chartreuse3", 76u8),
        ("cadet_blue", 73u8), ("sky_blue3", 74u8), ("steel_blue1", 81u8), ("pale_green3", 114u8),
        ("sea_green3", 78u8), ("aquamarine3", 79u8), ("medium_turquoise", 80u8), ("chartreuse2", 112u8),
        ("sea_green2", 83u8), ("sea_green1", 85u8), ("aquamarine1", 122u8), ("dark_slate_gray2", 87u8),
        ("dark_magenta", 91u8), ("dark_violet", 128u8), ("purple", 129u8), ("light_pink4", 95u8),
        ("plum4", 96u8), ("medium_purple3", 98u8), ("slate_blue1", 99u8), ("yellow4", 106u8),
        ("wheat4", 101u8), ("grey53", 102u8), ("gray53", 102u8), ("light_slate_grey", 103u8),
        ("light_slate_gray", 103u8), ("medium_purple", 104u8), ("light_slate_blue", 105u8), ("dark_olive_green3", 149u8),
        ("dark_sea_green", 108u8), ("light_sky_blue3", 110u8), ("sky_blue2", 111u8), ("dark_sea_green3", 150u8),
        ("dark_slate_gray3", 116u8), ("sky_blue1", 117u8), ("chartreuse1", 118u8), ("light_green", 120u8),
        ("pale_green1", 156u8), ("dark_slate_gray1", 123u8), ("red3", 160u8), ("medium_violet_red", 126u8),
        ("magenta3", 164u8), ("dark_orange3", 166u8), ("indian_red", 167u8), ("hot_pink3", 168u8),
        ("medium_orchid3", 133u8), ("medium_orchid", 134u8), ("medium_purple2", 140u8), ("dark_goldenrod", 136u8),
        ("light_salmon3", 173u8), ("rosy_brown", 138u8), ("grey63", 139u8), ("gray63", 139u8),
        ("medium_purple1", 141u8), ("gold3", 178u8), ("dark_khaki", 143u8), ("navajo_white3", 144u8),
        ("grey69", 145u8), ("gray69", 145u8), ("light_steel_blue3", 146u8), ("light_steel_blue", 147u8),
        ("yellow3", 184u8), ("dark_sea_green2", 157u8), ("light_cyan3", 152u8), ("light_sky_blue1", 153u8),
        ("green_yellow", 154u8), ("dark_olive_green2", 155u8), ("dark_sea_green1", 193u8), ("pale_turquoise1", 159u8),
        ("deep_pink3", 162u8), ("magenta2", 200u8), ("hot_pink2", 169u8), ("orchid", 170u8),
        ("medium_orchid1", 207u8), ("orange3", 172u8), ("light_pink3", 174u8), ("pink3", 175u8),
        ("plum3", 176u8), ("violet", 177u8), ("light_goldenrod3", 179u8), ("tan", 180u8),
        ("misty_rose3", 181u8), ("thistle3", 182u8), ("plum2", 183u8), ("khaki3", 185u8),
        ("light_goldenrod2", 222u8), ("light_yellow3", 187u8), ("grey84", 188u8), ("gray84", 188u8),
        ("light_steel_blue1", 189u8), ("yellow2", 190u8), ("dark_olive_green1", 192u8), ("honeydew2", 194u8),
        ("light_cyan1", 195u8), ("red1", 196u8), ("deep_pink2", 197u8), ("deep_pink1", 199u8),
        ("magenta1", 201u8), ("orange_red1", 202u8), ("indian_red1", 204u8), ("hot_pink", 206u8),
        ("dark_orange", 208u8), ("salmon1", 209u8), ("light_coral", 210u8), ("pale_violet_red1", 211u8),
        ("orchid2", 212u8), ("orchid1", 213u8), ("orange1", 214u8), ("sandy_brown", 215u8),
        ("light_salmon1", 216u8), ("light_pink1", 217u8), ("pink1", 218u8), ("plum1", 219u8),
        ("gold1", 220u8), ("navajo_white1", 223u8), ("misty_rose1", 224u8), ("thistle1", 225u8),
        ("yellow1", 226u8), ("light_goldenrod1", 227u8), ("khaki1", 228u8), ("wheat1", 229u8),
        ("cornsilk1", 230u8), ("grey100", 231u8), ("gray100", 231u8), ("grey3", 232u8),
        ("gray3", 232u8), ("grey7", 233u8), ("gray7", 233u8), ("grey11", 234u8),
        ("gray11", 234u8), ("grey15", 235u8), ("gray15", 235u8), ("grey19", 236u8),
        ("gray19", 236u8), ("grey23", 237u8), ("gray23", 237u8), ("grey27", 238u8),
        ("gray27", 238u8), ("grey30", 239u8), ("gray30", 239u8), ("grey35", 240u8),
        ("gray35", 240u8), ("grey39", 241u8), ("gray39", 241u8), ("grey42", 242u8),
        ("gray42", 242u8), ("grey46", 243u8), ("gray46", 243u8), ("grey50", 244u8),
        ("gray50", 244u8), ("grey54", 245u8), ("gray54", 245u8), ("grey58", 246u8),
        ("gray58", 246u8), ("grey62", 247u8), ("gray62", 247u8), ("grey66", 248u8),
        ("gray66", 248u8), ("grey70", 249u8), ("gray70", 249u8), ("grey74", 250u8),
        ("gray74", 250u8), ("grey78", 251u8), ("gray78", 251u8), ("grey82", 252u8),
        ("gray82", 252u8), ("grey85", 253u8), ("gray85", 253u8), ("grey89", 254u8),
        ("gray89", 254u8), ("grey93", 255u8), ("gray93", 255u8), ("grey", 8u8),
        ("gray", 8u8),
    ];
    proof {
        reveal(color_name_table);
    }
    assert(v@ == color_name_table());
    v
}


/// The number of the first entry of `table` named `name`.
pub open spec fn lookup_name(table: Seq<(&'static str, u8)>, name: Seq<char>) -> Option<u8>
    decreases table.len(),
{
    if table.len() == 0 {
        None
    } else if table[0].0@ == name {
        Some(table[0].1)
    } else {
        lookup_name(table.drop_first(), name)
    }
}

/// The color number of an ANSI color name, if it has one.
#[verifier::opaque]
pub open spec fn ansi_color_number_spec(name: Seq<char>) -> Option<u8> {
    lookup_name(color_name_table(), name)
}

/// Look up the color number of an ANSI color name (e.g. "red" is 1).
pub fn ansi_color_number(name: &str) -> (r: Option<u8>)
    ensures
        r == ansi_color_number_spec(name@),
{
    let table = color_name_table_exec();
    let mut i: usize = 0;
    proof {
        reveal(ansi_color_number_spec);
        assert(table@.skip(0) == table@);
    }
    while i < table.len()
        invariant
            0 <= i <= table@.len(),
            table@ == color_name_table(),
            lookup_name(table@.skip(i as int), name@) == ansi_color_number_spec(name@),
        decreases table.len() - i,
    {
        assert(table@.skip(i as int)[0] == table@[i as int]);
        assert(table@.skip(i as int).drop_first() == table@.skip(i + 1));
        let (n, v) = table[i];
        if str_eq(n, name) {
            return Some(v);
        }
        i = i + 1;
    }
    None
}

// ============================================================================
// Color
// ============================================================================

/// A terminal color definition: default, standard (16 colors), 8-bit or truecolor.
#[derive(Debug, Clone, PartialEq, Eq, Hash)]
pub struct Color {
    /// The original name/representation of the color.
    pub name: String,
    /// The type of color.
    pub color_type: ColorType,
    /// The color number (for Standard and EightBit types).
    pub number: Option<u8>,
    /// The RGB triplet (for TrueColor type).
    pub triplet: Option<ColorTriplet>,
}

/// A color as a value: name, type, number and triplet.
pub type ColorValue = (Seq<char>, ColorType, Option<u8>, Option<ColorTriplet>);

/// The value of a color.
pub open spec fn color_value(c: Color) -> ColorValue {
    (c.name@, c.color_type, c.number, c.triplet)
}

/// The color type of an 8-bit color number.
pub open spec fn type_of_number(n: u8) -> ColorType {
    if n < 16 { ColorType::Standard } else { ColorType::EightBit }
}

/// The `color(n)` name of a color number.
pub open spec fn color_number_name(n: u8) -> Seq<char> {
    seq!['c', 'o', 'l', 'o', 'r', '('] + decimal_spec(n as nat) + seq![')']
}

/// Value of a hexadecimal digit (either case).
pub open spec fn hex_digit_value(c: char) -> Option<u8> {
    if '0' <= c && c <= '9' {
        Some(((c as u32) - 48) as u8)
    } else if 'a' <= c && c <= 'f' {
        Some(((c as u32) - 87) as u8)
    } else if 'A' <= c && c <= 'F' {
        Some(((c as u32) - 55) as u8)
    } else {
        None
    }
}

fn hex_digit_value_exec(c: char) -> (r: Option<u8>)
    ensures
        r == hex_digit_value(c),
{
    if '0' <= c && c <= '9' {
        Some(((c as u32) - 48) as u8)
    } else if 'a' <= c && c <= 'f' {
        Some(((c as u32) - 87) as u8)
    } else if 'A' <= c && c <= 'F' {
        Some(((c as u32) - 55) as u8)
    } else {
        None
    }
}

/// What `u8::from_str_radix(_, 16)` returns for a two-character string.
pub open spec fn radix16_pair(a: char, b: char) -> Option<u8> {
    if a == '+' {
        hex_digit_value(b)
    } else {
        match (hex_digit_value(a), hex_digit_value(b)) {
            (Some(x), Some(y)) => Some((16 * x + y) as u8),
            _ => None,
        }
    }
}

fn radix16_pair_exec(a: char, b: char) -> (r: Option<u8>)
    ensures
        r == radix16_pair(a, b),
{
    if a == '+' {
        hex_digit_value_exec(b)
    } else {
        match (hex_digit_value_exec(a), hex_digit_value_exec(b)) {
            (Some(x), Some(y)) => Some(16 * x + y),
            _ => None,
        }
    }
}

/// Whether all characters are ASCII.
pub open spec fn all_ascii(s: Seq<char>) -> bool {
    forall|i: int| 0 <= i < s.len() ==> (#[trigger] s[i] as u32) < 128
}

fn chars_all_ascii(s: &[char]) -> (r: bool)
    ensures
        r == all_ascii(s@),
{
    let mut i: usize = 0;
    while i < s.len()
        invariant
            0 <= i <= s.len(),
            forall|j: int| 0 <= j < i ==> (#[trigger] s@[j] as u32) < 128,
        decreases s.len() - i,
    {
        if (s[i] as u32) >= 128 {
            return false;
        }
        i = i + 1;
    }
    true
}

/// The triplet that a `#rgb` or `#rrggbb` body denotes, if it is well formed.
pub open spec fn hex_body_triplet(hex: Seq<char>) -> Option<ColorTriplet> {
    if !all_ascii(hex) {
        None
    } else if hex.len() == 3 {
        match (hex_digit_value(hex[0]), hex_digit_value(hex[1]), hex_digit_value(hex[2])) {
            (Some(r), Some(g), Some(b)) => Some(ColorTriplet { red: (r * 17) as u8, green: (g * 17) as u8, blue: (b * 17) as u8 }),
            _ => None,
        }
    } else if hex.len() == 6 {
        match (radix16_pair(hex[0], hex[1]), radix16_pair(hex[2], hex[3]), radix16_pair(hex[4], hex[5])) {
            (Some(r), Some(g), Some(b)) => Some(ColorTriplet { red: r, green: g, blue: b }),
            _ => None,
        }
    } else {
        None
    }
}

fn hex_body_triplet_exec(hex: &[char]) -> (r: Option<ColorTriplet>)
    ensures
        r == hex_body_triplet(hex@),
{
    if !chars_all_ascii(hex) {
        return None;
    }
    if hex.len() == 3 {
        match (hex_digit_value_exec(hex[0]), hex_digit_value_exec(hex[1]), hex_digit_value_exec(hex[2])) {
            (Some(r), Some(g), Some(b)) => Some(ColorTriplet { red: r * 17, green: g * 17, blue: b * 17 }),
            _ => None,
        }
    } else if hex.len() == 6 {
        match (radix16_pair_exec(hex[0], hex[1]), radix16_pair_exec(hex[2], hex[3]), radix16_pair_exec(hex[4], hex[5])) {
            (Some(r), Some(g), Some(b)) => Some(ColorTriplet { red: r, green: g, blue: b }),
            _ => None,
        }
    } else {
        None
    }
}

/// Component `part` of an `rgb(...)` body: its number, or the error message.
pub open spec fn rgb_component(part: Seq<char>, original: Seq<char>) -> Result<u8, Seq<char>> {
    match parse_unsigned_spec(trim_spec(part), 65535) {
        None => Err("invalid RGB component in "@ + debug_str_spec(original)),
        Some(v) => if v > 255 {
            Err("color components must be <= 255 in "@ + debug_str_spec(original))
        } else {
            Ok(v as u8)
        },
    }
}

/// The result of parsing an `rgb(...)` body.
pub open spec fn rgb_body_spec(inner: Seq<char>, original: Seq<char>) -> Result<ColorValue, Seq<char>> {
    let parts = split_spec(inner, ',');
    if parts.len() != 3 {
        Err("expected three components in "@ + debug_str_spec(original))
    } else {
        match rgb_component(parts[0], original) {
            Err(m) => Err(m),
            Ok(r) => match rgb_component(parts[1], original) {
                Err(m) => Err(m),
                Ok(g) => match rgb_component(parts[2], original) {
                    Err(m) => Err(m),
                    Ok(b) => Ok((
                        triplet_rgb_spec(ColorTriplet { red: r, green: g, blue: b }),
                        ColorType::TrueColor,
                        None,
                        Some(ColorTriplet { red: r, green: g, blue: b }),
                    )),
                },
            },
        }
    }
}

/// The result of parsing a `color(n)` body.
pub open spec fn number_body_spec(inner: Seq<char>, original: Seq<char>) -> Result<ColorValue, Seq<char>> {
    match parse_unsigned_spec(trim_spec(inner), 65535) {
        None => Err("invalid color number in "@ + debug_str_spec(original)),
        Some(v) => if v > 255 {
            Err("color number must be <= 255 in "@ + debug_str_spec(original))
        } else {
            Ok((color_number_name(v as u8), type_of_number(v as u8), Some(v as u8), None))
        },
    }
}

/// What `Color::parse` returns for a string: the color's value, or the error message.
pub open spec fn parse_color_spec(original: Seq<char>) -> Result<ColorValue, Seq<char>> {
    let c = trim_spec(unicode_lowercase(original));
    if c == "default"@ {
        Ok(("default"@, ColorType::Default, None, None))
    } else if ansi_color_number_spec(c) is Some {
        let n = ansi_color_number_spec(c)->0;
        Ok((c, type_of_number(n), Some(n), None))
    } else if c.len() > 0 && c[0] == '#' {
        match hex_body_triplet(c.drop_first()) {
            Some(t) => Ok((triplet_hex_spec(t), ColorType::TrueColor, None, Some(t))),
            None => Err(debug_str_spec(original) + " is not a valid hex color"@),
        }
    } else if c.len() >= 5 && c.take(4) == seq!['r', 'g', 'b', '('] && c.last() == ')' {
        rgb_body_spec(c.subrange(4, c.len() - 1), original)
    } else if c.len() >= 7 && c.take(6) == seq!['c', 'o', 'l', 'o', 'r', '('] && c.last() == ')' {
        number_body_spec(c.subrange(6, c.len() - 1), original)
    } else {
        Err(debug_str_spec(original) + " is not a valid color"@)
    }
}

fn error_with_original(prefix: &str, original: &str) -> (r: ParseError)
    ensures
        r matches ParseError::InvalidColor(m) && m@ == prefix@ + debug_str_spec(original@),
{
    let mut m = crate::strs::owned(prefix);
    let d = debug_str(original);
    push_str(&mut m, d.as_str());
    ParseError::InvalidColor(m)
}

fn error_original_first(original: &str, suffix: &str) -> (r: ParseError)
    ensures
        r matches ParseError::InvalidColor(m) && m@ == debug_str_spec(original@) + suffix@,
{
    let mut m = debug_str(original);
    push_str(&mut m, suffix);
    ParseError::InvalidColor(m)
}

fn rgb_component_exec(part: &Vec<char>, original: &str) -> (r: core::result::Result<u8, ParseError>)
    ensures
        match rgb_component(part@, original@) {
            Ok(v) => r == Ok::<u8, ParseError>(v),
            Err(m) => r matches Err(ParseError::InvalidColor(e)) && e@ == m,
        },
{
    let t = trim_chars(part.as_slice());
    match crate::strs::parse_unsigned(t.as_slice(), 65535) {
        None => Err(error_with_original("invalid RGB component in ", original)),
        Some(v) => if v > 255 {
            Err(error_with_original("color components must be <= 255 in ", original))
        } else {
            Ok(v as u8)
        },
    }
}

impl Color {
    /// Create a new Color with the given parameters.
    pub fn new(name: String, color_type: ColorType, number: Option<u8>, triplet: Option<ColorTriplet>) -> (r: Self)
        ensures
            r == (Color { name, color_type, number, triplet }),
    {
        Color { name, color_type, number, triplet }
    }

    /// A copy of this color.
    pub fn copy(&self) -> (r: Self)
        ensures
            color_value(r) == color_value(*self),
    {
        Color { name: self.name.clone(), color_type: self.color_type, number: self.number, triplet: self.triplet }
    }

    /// Create the default terminal color.
    pub fn default_color() -> (r: Self)
        ensures
            color_value(r) == ("default"@, ColorType::Default, None::<u8>, None::<ColorTriplet>),
    {
        Color { name: crate::strs::owned("default"), color_type: ColorType::Default, number: None, triplet: None }
    }

    /// Create a color from an 8-bit ANSI number (0-255).
    pub fn from_ansi(number: u8) -> (r: Self)
        ensures
            color_value(r) == (color_number_name(number), type_of_number(number), Some(number), None::<ColorTriplet>),
    {
        let mut name = crate::strs::owned("color(");
        push_decimal(&mut name, number as u64);
        name.push(')');
        proof {
            reveal_strlit("color(");
            assert(name@ =~= color_number_name(number));
        }
        let color_type = if number < 16 { ColorType::Standard } else { ColorType::EightBit };
        Color { name, color_type, number: Some(number), triplet: None }
    }

    /// Create a color from an RGB triplet.
    pub fn from_triplet(triplet: ColorTriplet) -> (r: Self)
        ensures
            color_value(r) == (triplet_hex_spec(triplet), ColorType::TrueColor, None::<u8>, Some(triplet)),
    {
        Color { name: triplet.hex(), color_type: ColorType::TrueColor, number: None, triplet: Some(triplet) }
    }

    /// Create a color from RGB values.
    pub fn from_rgb(red: u8, green: u8, blue: u8) -> (r: Self)
        ensures
            color_value(r) == (
                triplet_hex_spec(ColorTriplet { red, green, blue }),
                ColorType::TrueColor,
                None::<u8>,
                Some(ColorTriplet { red, green, blue }),
            ),
    {
        Self::from_triplet(ColorTriplet::new(red, green, blue))
    }

    /// Get the color system for this color.
    pub fn system(&self) -> (r: ColorSystem)
        ensures
            r == type_system(self.color_type),
    {
        self.color_type.system()
    }

    /// Check if this color is system-defined (Standard or Windows).
    pub fn is_system_defined(&self) -> (r: bool)
        ensures
            r == (type_system(self.color_type) == ColorSystem::Standard
                || type_system(self.color_type) == ColorSystem::Windows),
    {
        match self.color_type.system() {
            ColorSystem::Standard | ColorSystem::Windows => true,
            _ => false,
        }
    }

    /// Check if this is the default color.
    pub fn is_default(&self) -> (r: bool)
        ensures
            r == (self.color_type == ColorType::Default),
    {
        self.color_type == ColorType::Default
    }

    /// Get the RGB triplet for this color: palette lookups for numbered colors, white or
    /// black for the default color as foreground or background.
    pub fn get_truecolor(&self, foreground: bool) -> (r: ColorTriplet)
        ensures
            r == truecolor_spec(self.color_type, self.number, self.triplet, foreground),
    {
        match self.color_type {
            ColorType::TrueColor => match self.triplet {
                Some(t) => t,
                None => ColorTriplet { red: 0, green: 0, blue: 0 },
            },
            ColorType::EightBit => eight_bit_color(unwrap_number(self.number)),
            ColorType::Standard => {
                let n = unwrap_number(self.number);
                if n < 16 { standard_color(n) } else { ColorTriplet { red: 0, green: 0, blue: 0 } }
            },
            ColorType::Windows => {
                let n = unwrap_number(self.number);
                if n < 16 { windows_color(n) } else { ColorTriplet { red: 0, green: 0, blue: 0 } }
            },
            ColorType::Default => if foreground {
                ColorTriplet { red: 255, green: 255, blue: 255 }
            } else {
                ColorTriplet { red: 0, green: 0, blue: 0 }
            },
        }
    }

    /// Parse a color from a string: a name ("red", "grey50"), `#rrggbb` or `#rgb`,
    /// `rgb(r,g,b)`, `color(n)` or "default" (case-insensitive, surrounding white space ignored).
    pub fn parse(color: &str) -> (r: core::result::Result<Self, ParseError>)
        ensures
            match parse_color_spec(color@) {
                Ok(v) => r matches Ok(c) && color_value(c) == v,
                Err(m) => r matches Err(ParseError::InvalidColor(e)) && e@ == m,
            },
    {
        let lowered = to_lowercase(color);
        let lc = str_chars(lowered.as_str());
        let c = trim_chars(lc.as_slice());
        let cs = string_from_chars(c.as_slice());
        if str_eq(cs.as_str(), "default") {
            return Ok(Self::default_color());
        }
        match ansi_color_number(cs.as_str()) {
            Some(n) => {
                let color_type = if n < 16 { ColorType::Standard } else { ColorType::EightBit };
                return Ok(Color { name: cs, color_type, number: Some(n), triplet: None });
            },
            None => {},
        }
        if c.len() > 0 && c[0] == '#' {
            let hex = sub_chars(c.as_slice(), 1, c.len());
            assert(hex@ == c@.drop_first());
            return match hex_body_triplet_exec(hex.as_slice()) {
                Some(t) => Ok(Self::from_triplet(t)),
                None => Err(error_original_first(color, " is not a valid hex color")),
            };
        }
        let rgb_prefix = ['r', 'g', 'b', '('];
        let color_prefix = ['c', 'o', 'l', 'o', 'r', '('];
        if c.len() >= 5 && chars_start_with(c.as_slice(), &rgb_prefix) && c[c.len() - 1] == ')' {
            assert(rgb_prefix@ == seq!['r', 'g', 'b', '(']);
            let inner = sub_chars(c.as_slice(), 4, c.len() - 1);
            return Self::parse_rgb_body(&inner, color);
        }
        assert(rgb_prefix@ == seq!['r', 'g', 'b', '(']);
        if c.len() >= 7 && chars_start_with(c.as_slice(), &color_prefix) && c[c.len() - 1] == ')' {
            assert(color_prefix@ == seq!['c', 'o', 'l', 'o', 'r', '(']);
            let inner = sub_chars(c.as_slice(), 6, c.len() - 1);
            let t = trim_chars(inner.as_slice());
            return match crate::strs::parse_unsigned(t.as_slice(), 65535) {
                None => Err(error_with_original("invalid color number in ", color)),
                Some(v) => if v > 255 {
                    Err(error_with_original("color number must be <= 255 in ", color))
                } else {
                    Ok(Self::from_ansi(v as u8))
                },
            };
        }
        assert(color_prefix@ == seq!['c', 'o', 'l', 'o', 'r', '(']);
        Err(error_original_first(color, " is not a valid color"))
    }

    fn parse_rgb_body(inner: &Vec<char>, original: &str) -> (r: core::result::Result<Self, ParseError>)
        ensures
            match rgb_body_spec(inner@, original@) {
                Ok(v) => r matches Ok(c) && color_value(c) == v,
                Err(m) => r matches Err(ParseError::InvalidColor(e)) && e@ == m,
            },
    {
        let parts = crate::strs::split_chars(inner.as_slice(), ',');
        if parts.len() != 3 {
            return Err(error_with_original("expected three components in ", original));
        }
        let r = match rgb_component_exec(&parts[0], original) {
            Ok(v) => v,
            Err(e) => return Err(e),
        };
        let g = match rgb_component_exec(&parts[1], original) {
            Ok(v) => v,
            Err(e) => return Err(e),
        };
        let b = match rgb_component_exec(&parts[2], original) {
            Ok(v) => v,
            Err(e) => return Err(e),
        };
        let t = ColorTriplet { red: r, green: g, blue: b };
        Ok(Color { name: t.rgb(), color_type: ColorType::TrueColor, number: None, triplet: Some(t) })
    }
}

/// `number.unwrap_or(0)`.
pub open spec fn number_or_zero(n: Option<u8>) -> u8 {
    match n {
        Some(v) => v,
        None => 0,
    }
}

fn unwrap_number(n: Option<u8>) -> (r: u8)
    ensures
        r == number_or_zero(n),
{
    match n {
        Some(v) => v,
        None => 0,
    }
}

/// `triplet.unwrap_or_default()`.
pub open spec fn triplet_or_black(t: Option<ColorTriplet>) -> ColorTriplet {
    match t {
        Some(v) => v,
        None => ColorTriplet { red: 0, green: 0, blue: 0 },
    }
}

/// The RGB value that a color shows as.
pub open spec fn truecolor_spec(ty: ColorType, number: Option<u8>, triplet: Option<ColorTriplet>, foreground: bool) -> ColorTriplet {
    let n = number_or_zero(number);
    match ty {
        ColorType::TrueColor => triplet_or_black(triplet),
        ColorType::EightBit => eight_bit_triplet(n as int),
        ColorType::Standard => if n < 16 { standard_triplet(n as int) } else { ColorTriplet { red: 0, green: 0, blue: 0 } },
        ColorType::Windows => if n < 16 { windows_triplet(n as int) } else { ColorTriplet { red: 0, green: 0, blue: 0 } },
        ColorType::Default => if foreground {
            ColorTriplet { red: 255, green: 255, blue: 255 }
        } else {
            ColorTriplet { red: 0, green: 0, blue: 0 }
        },
    }
}

} // verus!

verus! {

// ============================================================================
// ANSI codes and downgrading
// ============================================================================

/// The SGR parameters that select a color as foreground or background.
pub open spec fn ansi_codes_spec(ty: ColorType, number: Option<u8>, triplet: Option<ColorTriplet>, foreground: bool) -> Seq<Seq<char>> {
    let n = number_or_zero(number);
    match ty {
        ColorType::Default => seq![decimal_spec(if foreground { 39 } else { 49 })],
        ColorType::Standard | ColorType::Windows => {
            let base: nat = if n < 8 { if foreground { 30 } else { 40 } } else { if foreground { 90 } else { 100 } };
            seq![decimal_spec(base + (n % 8) as nat)]
        },
        ColorType::EightBit => seq![decimal_spec(if foreground { 38 } else { 48 }), decimal_spec(5), decimal_spec(n as nat)],
        ColorType::TrueColor => {
            let t = triplet_or_black(triplet);
            seq![
                decimal_spec(if foreground { 38 } else { 48 }),
                decimal_spec(2),
                decimal_spec(t.red as nat),
                decimal_spec(t.green as nat),
                decimal_spec(t.blue as nat),
            ]
        },
    }
}

/// Views of a vector of strings.
pub open spec fn views(v: Seq<String>) -> Seq<Seq<char>> {
    v.map(|_i: int, s: String| s@)
}

/// Round half away from zero of `num / den` for non-negative values.
pub open spec fn round_div(num: nat, den: nat) -> nat {
    (2 * num + den) / (2 * den)
}

/// Level of one component on the 6x6x6 cube: `round(v / 95)` below 95, else `1 + round((v - 95) / 40)`.
pub open spec fn six_level(v: u8) -> nat {
    if v < 95 { round_div(v as nat, 95) } else { 1 + round_div((v - 95) as nat, 40) }
}

/// Largest component.
pub open spec fn max3(t: ColorTriplet) -> nat {
    let m = if t.red >= t.green { t.red } else { t.green };
    (if m >= t.blue { m } else { t.blue }) as nat
}

/// Smallest component.
pub open spec fn min3(t: ColorTriplet) -> nat {
    let m = if t.red <= t.green { t.red } else { t.green };
    (if m <= t.blue { m } else { t.blue }) as nat
}

/// Whether the HLS saturation of a color is below 0.15 (computed exactly).
pub open spec fn low_saturation(t: ColorTriplet) -> bool {
    let mx = max3(t);
    let mn = min3(t);
    mx == mn || (if mx + mn <= 255 {
        20 * (mx - mn) < 3 * (mx + mn)
    } else {
        20 * (mx - mn) < 3 * (510 - mx - mn)
    })
}

/// The 256-color index of a truecolor color: a gray of the ramp for low saturation,
/// otherwise the nearest entry of the 6x6x6 cube.
pub open spec fn eight_bit_index(t: ColorTriplet) -> u8 {
    if low_saturation(t) {
        let gray = round_div(5 * (max3(t) + min3(t)), 102);
        (if gray == 0 { 16 } else if gray == 25 { 231 } else { 231 + gray }) as u8
    } else {
        (16 + 36 * six_level(t.red) + 6 * six_level(t.green) + six_level(t.blue)) as u8
    }
}

/// The first closest entry of a palette.
pub open spec fn closest_index(colors: Seq<ColorTriplet>, t: ColorTriplet) -> int {
    choose|i: int| is_closest(colors, t, i)
}

/// The standard palette as a sequence.
pub open spec fn standard_seq() -> Seq<ColorTriplet> {
    Seq::new(16, |i: int| standard_triplet(i))
}

/// The Windows palette as a sequence.
pub open spec fn windows_seq() -> Seq<ColorTriplet> {
    Seq::new(16, |i: int| windows_triplet(i))
}

/// Type, number and triplet of a color after downgrading it to `system`.
pub open spec fn downgrade_spec(ty: ColorType, number: Option<u8>, triplet: Option<ColorTriplet>, system: ColorSystem)
    -> (ColorType, Option<u8>, Option<ColorTriplet>)
{
    let same = (ty, number, triplet);
    let n = number_or_zero(number);
    if ty == ColorType::Default || system_rank(type_system(ty)) <= system_rank(system) {
        same
    } else {
        match system {
            ColorSystem::TrueColor => same,
            ColorSystem::EightBit => if ty == ColorType::TrueColor {
                (ColorType::EightBit, Some(eight_bit_index(triplet_or_black(triplet))), None)
            } else {
                same
            },
            ColorSystem::Standard => match ty {
                ColorType::TrueColor => (ColorType::Standard, Some(closest_index(standard_seq(), triplet_or_black(triplet)) as u8), None),
                ColorType::EightBit => (ColorType::Standard, Some(closest_index(standard_seq(), eight_bit_triplet(n as int)) as u8), None),
                _ => same,
            },
            ColorSystem::Windows => match ty {
                ColorType::TrueColor => (ColorType::Windows, Some(closest_index(windows_seq(), triplet_or_black(triplet)) as u8), None),
                ColorType::EightBit => if n < 16 {
                    (ColorType::Windows, Some(n), None)
                } else {
                    (ColorType::Windows, Some(closest_index(windows_seq(), eight_bit_triplet(n as int)) as u8), None)
                },
                _ => same,
            },
        }
    }
}

proof fn lemma_closest_unique(colors: Seq<ColorTriplet>, t: ColorTriplet, i: int)
    requires
        is_closest(colors, t, i),
    ensures
        closest_index(colors, t) == i,
{
    let k = closest_index(colors, t);
    assert(is_closest(colors, t, k));
    if k < i {
        assert(color_distance(colors[k], t) > color_distance(colors[i], t));
        assert(color_distance(colors[k], t) <= color_distance(colors[i], t));
    } else if i < k {
        assert(color_distance(colors[i], t) > color_distance(colors[k], t));
        assert(color_distance(colors[i], t) <= color_distance(colors[k], t));
    }
}

fn closest_standard(t: ColorTriplet) -> (r: u8)
    ensures
        r as int == closest_index(standard_seq(), t),
        r < 16,
{
    let p = standard_palette();
    let i = p.match_color(t);
    proof {
        assert(p@ =~= standard_seq());
        lemma_closest_unique(standard_seq(), t, i as int);
    }
    i as u8
}

fn closest_windows(t: ColorTriplet) -> (r: u8)
    ensures
        r as int == closest_index(windows_seq(), t),
        r < 16,
{
    let p = windows_palette();
    let i = p.match_color(t);
    proof {
        assert(p@ =~= windows_seq());
        lemma_closest_unique(windows_seq(), t, i as int);
    }
    i as u8
}

fn max3_exec(t: ColorTriplet) -> (r: u8)
    ensures
        r as nat == max3(t),
{
    let m = if t.red >= t.green { t.red } else { t.green };
    if m >= t.blue { m } else { t.blue }
}

fn min3_exec(t: ColorTriplet) -> (r: u8)
    ensures
        r as nat == min3(t),
{
    let m = if t.red <= t.green { t.red } else { t.green };
    if m <= t.blue { m } else { t.blue }
}

fn six_level_exec(v: u8) -> (r: u8)
    ensures
        r as nat == six_level(v),
        r <= 5,
{
    if v < 95 {
        ((2 * (v as u32) + 95) / 190) as u8
    } else {
        (1 + (2 * ((v - 95) as u32) + 40) / 80) as u8
    }
}

fn eight_bit_index_exec(t: ColorTriplet) -> (r: u8)
    ensures
        r == eight_bit_index(t),
{
    let mx = max3_exec(t) as u32;
    let mn = min3_exec(t) as u32;
    let low = mx == mn || (if mx + mn <= 255 {
        20 * (mx - mn) < 3 * (mx + mn)
    } else {
        20 * (mx - mn) < 3 * (510 - mx - mn)
    });
    if low {
        let gray = (2 * (5 * (mx + mn)) + 102) / 204;
        assert(gray <= 25);
        if gray == 0 { 16 } else if gray == 25 { 231 } else { (231 + gray) as u8 }
    } else {
        let r = six_level_exec(t.red);
        let g = six_level_exec(t.green);
        let b = six_level_exec(t.blue);
        16 + 36 * r + 6 * g + b
    }
}

impl Color {
    /// Get the ANSI escape codes (SGR parameters) for this color as foreground or background.
    pub fn get_ansi_codes(&self, foreground: bool) -> (r: Vec<String>)
        ensures
            views(r@) == ansi_codes_spec(self.color_type, self.number, self.triplet, foreground),
    {
        let mut v: Vec<String> = Vec::new();
        let n = unwrap_number(self.number);
        match self.color_type {
            ColorType::Default => {
                v.push(u64_to_string(if foreground { 39 } else { 49 }));
            },
            ColorType::Standard | ColorType::Windows => {
                let base: u64 = if n < 8 { if foreground { 30 } else { 40 } } else { if foreground { 90 } else { 100 } };
                v.push(u64_to_string(base + (n % 8) as u64));
            },
            ColorType::EightBit => {
                v.push(u64_to_string(if foreground { 38 } else { 48 }));
                v.push(u64_to_string(5));
                v.push(u64_to_string(n as u64));
            },
            ColorType::TrueColor => {
                let t = match self.triplet {
                    Some(t) => t,
                    None => ColorTriplet { red: 0, green: 0, blue: 0 },
                };
                v.push(u64_to_string(if foreground { 38 } else { 48 }));
                v.push(u64_to_string(2));
                v.push(u64_to_string(t.red as u64));
                v.push(u64_to_string(t.green as u64));
                v.push(u64_to_string(t.blue as u64));
            },
        }
        assert(views(v@) =~= ansi_codes_spec(self.color_type, self.number, self.triplet, foreground));
        v
    }

    /// Downgrade this color to a color system with fewer colors; the name is kept.
    pub fn downgrade(&self, system: ColorSystem) -> (r: Self)
        ensures
            r.name@ == self.name@,
            (r.color_type, r.number, r.triplet) == downgrade_spec(self.color_type, self.number, self.triplet, system),
    {
        if self.color_type == ColorType::Default {
            return self.copy();
        }
        let current = self.color_type.system();
        if current.rank() <= system.rank() {
            return self.copy();
        }
        let n = unwrap_number(self.number);
        match system {
            ColorSystem::TrueColor => self.copy(),
            ColorSystem::EightBit => {
                if current == ColorSystem::TrueColor {
                    let t = match self.triplet {
                        Some(t) => t,
                        None => ColorTriplet { red: 0, green: 0, blue: 0 },
                    };
                    Color { name: self.name.clone(), color_type: ColorType::EightBit, number: Some(eight_bit_index_exec(t)), triplet: None }
                } else {
                    self.copy()
                }
            },
            ColorSystem::Standard => {
                let t = match self.color_type {
                    ColorType::TrueColor => match self.triplet {
                        Some(t) => t,
                        None => ColorTriplet { red: 0, green: 0, blue: 0 },
                    },
                    ColorType::EightBit => eight_bit_color(n),
                    _ => return self.copy(),
                };
                Color { name: self.name.clone(), color_type: ColorType::Standard, number: Some(closest_standard(t)), triplet: None }
            },
            ColorSystem::Windows => {
                let t = match self.color_type {
                    ColorType::TrueColor => match self.triplet {
                        Some(t) => t,
                        None => ColorTriplet { red: 0, green: 0, blue: 0 },
                    },
                    ColorType::EightBit => {
                        if n < 16 {
                            return Color { name: self.name.clone(), color_type: ColorType::Windows, number: Some(n), triplet: None };
                        }
                        eight_bit_color(n)
                    },
                    _ => return self.copy(),
                };
                Color { name: self.name.clone(), color_type: ColorType::Windows, number: Some(closest_windows(t)), triplet: None }
            },
        }
    }
}

/// Parse a six-character hex string into a ColorTriplet.
pub open spec fn parse_rgb_hex_spec(hex: Seq<char>) -> Option<ColorTriplet> {
    if hex.len() == 6 && all_ascii(hex) {
        match (radix16_pair(hex[0], hex[1]), radix16_pair(hex[2], hex[3]), radix16_pair(hex[4], hex[5])) {
            (Some(r), Some(g), Some(b)) => Some(ColorTriplet { red: r, green: g, blue: b }),
            _ => None,
        }
    } else {
        None
    }
}

/// Parse a six-character hex string (without `#`) into a ColorTriplet.
pub fn parse_rgb_hex(hex_color: &str) -> (r: core::result::Result<ColorTriplet, ParseError>)
    ensures
        match parse_rgb_hex_spec(hex_color@) {
            Some(t) => r == Ok::<ColorTriplet, ParseError>(t),
            None => r matches Err(ParseError::InvalidColor(_)),
        },
{
    let h = str_chars(hex_color);
    if h.len() != 6 || !chars_all_ascii(h.as_slice()) {
        return Err(ParseError::InvalidColor(crate::strs::owned("hex color must be 6 characters")));
    }
    match (radix16_pair_exec(h[0], h[1]), radix16_pair_exec(h[2], h[3]), radix16_pair_exec(h[4], h[5])) {
        (Some(r), Some(g), Some(b)) => Ok(ColorTriplet { red: r, green: g, blue: b }),
        _ => Err(ParseError::InvalidColor(crate::strs::owned("invalid hex color"))),
    }
}

// ============================================================================
// SimpleColor
// ============================================================================

/// A compact color: default, standard (0-15), 8-bit (0-255) or RGB.
#[derive(Debug, Clone, Copy, PartialEq, Eq, Hash, Structural)]
pub enum SimpleColor {
    /// Default terminal color (no color set).
    Default,
    /// Standard ANSI color (0-15).
    Standard(u8),
    /// 8-bit color (0-255).
    EightBit(u8),
    /// 24-bit RGB color.
    Rgb { r: u8, g: u8, b: u8 },
}

impl Default for SimpleColor {
    fn default() -> (r: Self)
        ensures
            r == SimpleColor::Default,
    {
        SimpleColor::Default
    }
}

/// The simple color of a color number.
pub open spec fn simple_of_number(n: u8) -> SimpleColor {
    if n < 16 { SimpleColor::Standard(n) } else { SimpleColor::EightBit(n) }
}

/// What `SimpleColor::parse` reads from the text after `#` (leading `#`s are skipped).
pub open spec fn simple_hex_spec(hex: Seq<char>) -> Option<SimpleColor> {
    let h = hex.skip(leading_hashes(hex) as int);
    if !all_ascii(h) {
        None
    } else if h.len() == 3 {
        match (hex_digit_value(h[0]), hex_digit_value(h[1]), hex_digit_value(h[2])) {
            (Some(r), Some(g), Some(b)) => Some(SimpleColor::Rgb { r: (r * 17) as u8, g: (g * 17) as u8, b: (b * 17) as u8 }),
            _ => None,
        }
    } else if h.len() == 6 {
        match (radix16_pair(h[0], h[1]), radix16_pair(h[2], h[3]), radix16_pair(h[4], h[5])) {
            (Some(r), Some(g), Some(b)) => Some(SimpleColor::Rgb { r, g, b }),
            _ => None,
        }
    } else {
        None
    }
}

/// Number of leading `#` characters.
pub open spec fn leading_hashes(s: Seq<char>) -> nat
    decreases s.len(),
{
    if s.len() > 0 && s[0] == '#' { 1 + leading_hashes(s.drop_first()) } else { 0 }
}

proof fn lemma_leading_hashes(s: Seq<char>, i: int)
    requires
        0 <= i <= s.len(),
        forall|j: int| 0 <= j < i ==> #[trigger] s[j] == '#',
        i == s.len() || s[i] != '#',
    ensures
        leading_hashes(s) == i,
    decreases i,
{
    if i > 0 {
        assert forall|j: int| 0 <= j < i - 1 implies #[trigger] s.drop_first()[j] == '#' by {
            assert(s.drop_first()[j] == s[j + 1]);
        }
        lemma_leading_hashes(s.drop_first(), i - 1);
    }
}

/// The components of an `rgb(...)` body for `SimpleColor`, each a `u8`.
pub open spec fn simple_rgb_spec(inner: Seq<char>) -> Option<SimpleColor> {
    let parts = split_spec(inner, ',');
    if parts.len() == 3 {
        match (
            parse_unsigned_spec(trim_spec(parts[0]), 255),
            parse_unsigned_spec(trim_spec(parts[1]), 255),
            parse_unsigned_spec(trim_spec(parts[2]), 255),
        ) {
            (Some(r), Some(g), Some(b)) => Some(SimpleColor::Rgb { r: r as u8, g: g as u8, b: b as u8 }),
            _ => None,
        }
    } else {
        None
    }
}

/// What `SimpleColor::parse` returns.
pub open spec fn simple_parse_spec(input: Seq<char>) -> Option<SimpleColor> {
    let s = unicode_lowercase(trim_spec(input));
    if s.len() > 0 && s[0] == '#' {
        simple_hex_spec(s.drop_first())
    } else if s.len() >= 5 && s.take(4) == seq!['r', 'g', 'b', '('] && s.last() == ')' {
        simple_rgb_spec(s.subrange(4, s.len() - 1))
    } else if s.len() >= 7 && s.take(6) == seq!['c', 'o', 'l', 'o', 'r', '('] && s.last() == ')' {
        match parse_unsigned_spec(trim_spec(s.subrange(6, s.len() - 1)), 255) {
            Some(n) => Some(simple_of_number(n as u8)),
            None => None,
        }
    } else if ansi_color_number_spec(s) is Some {
        Some(simple_of_number(ansi_color_number_spec(s)->0))
    } else if s == "default"@ {
        Some(SimpleColor::Default)
    } else {
        None
    }
}

/// The color that a `SimpleColor` stands for.
pub open spec fn simple_to_color_value(c: SimpleColor) -> ColorValue {
    match c {
        SimpleColor::Default => ("default"@, ColorType::Default, None, None),
        SimpleColor::Standard(n) => (color_number_name(n), type_of_number(n), Some(n), None),
        SimpleColor::EightBit(n) => (color_number_name(n), type_of_number(n), Some(n), None),
        SimpleColor::Rgb { r, g, b } => (
            triplet_hex_spec(ColorTriplet { red: r, green: g, blue: b }),
            ColorType::TrueColor,
            None,
            Some(ColorTriplet { red: r, green: g, blue: b }),
        ),
    }
}

/// The `SimpleColor` of a color's type, number and triplet.
pub open spec fn simple_from_parts(ty: ColorType, number: Option<u8>, triplet: Option<ColorTriplet>) -> SimpleColor {
    match ty {
        ColorType::Default => SimpleColor::Default,
        ColorType::Standard | ColorType::Windows => SimpleColor::Standard(number_or_zero(number)),
        ColorType::EightBit => SimpleColor::EightBit(number_or_zero(number)),
        ColorType::TrueColor => {
            let t = triplet_or_black(triplet);
            SimpleColor::Rgb { r: t.red, g: t.green, b: t.blue }
        },
    }
}

/// The hex string of a `SimpleColor`.
pub open spec fn simple_hex_string(c: SimpleColor) -> Seq<char> {
    match c {
        SimpleColor::Rgb { r, g, b } => triplet_hex_spec(ColorTriplet { red: r, green: g, blue: b }),
        SimpleColor::Default => "#ffffff"@,
        SimpleColor::Standard(n) => triplet_hex_spec(if n < 16 { standard_triplet(n as int) } else { ColorTriplet { red: 0, green: 0, blue: 0 } }),
        SimpleColor::EightBit(n) => triplet_hex_spec(eight_bit_triplet(n as int)),
    }
}

fn parse_part_u8(part: &Vec<char>) -> (r: Option<u8>)
    ensures
        r == (match parse_unsigned_spec(trim_spec(part@), 255) {
            Some(v) => Some(v as u8),
            None => None::<u8>,
        }),
{
    let t = trim_chars(part.as_slice());
    match crate::strs::parse_unsigned(t.as_slice(), 255) {
        Some(v) => Some(v as u8),
        None => None,
    }
}

impl SimpleColor {
    /// Create a new RGB color.
    pub fn rgb(r: u8, g: u8, b: u8) -> (c: Self)
        ensures
            c == (SimpleColor::Rgb { r, g, b }),
    {
        SimpleColor::Rgb { r, g, b }
    }

    fn simple_hex(hex: &[char]) -> (r: Option<Self>)
        ensures
            r == simple_hex_spec(hex@),
    {
        let mut k: usize = 0;
        while k < hex.len() && hex[k] == '#'
            invariant
                0 <= k <= hex.len(),
                forall|j: int| 0 <= j < k ==> #[trigger] hex@[j] == '#',
            decreases hex.len() - k,
        {
            k = k + 1;
        }
        proof {
            lemma_leading_hashes(hex@, k as int);
        }
        let h = sub_chars(hex, k, hex.len());
        assert(h@ == hex@.skip(k as int));
        if !chars_all_ascii(h.as_slice()) {
            return None;
        }
        if h.len() == 3 {
            match (hex_digit_value_exec(h[0]), hex_digit_value_exec(h[1]), hex_digit_value_exec(h[2])) {
                (Some(r), Some(g), Some(b)) => Some(SimpleColor::Rgb { r: r * 17, g: g * 17, b: b * 17 }),
                _ => None,
            }
        } else if h.len() == 6 {
            match (radix16_pair_exec(h[0], h[1]), radix16_pair_exec(h[2], h[3]), radix16_pair_exec(h[4], h[5])) {
                (Some(r), Some(g), Some(b)) => Some(SimpleColor::Rgb { r, g, b }),
                _ => None,
            }
        } else {
            None
        }
    }

    /// Parse a color from a string: `#rgb`/`#rrggbb`, `rgb(r,g,b)`, `color(n)`, a name or "default".
    pub fn parse(input: &str) -> (r: Option<Self>)
        ensures
            r == simple_parse_spec(input@),
    {
        let ic = str_chars(input);
        let t = trim_chars(ic.as_slice());
        let ts = string_from_chars(t.as_slice());
        let lowered = to_lowercase(ts.as_str());
        let s = str_chars(lowered.as_str());
        if s.len() > 0 && s[0] == '#' {
            let hex = sub_chars(s.as_slice(), 1, s.len());
            assert(hex@ == s@.drop_first());
            return Self::simple_hex(hex.as_slice());
        }
        let rgb_prefix = ['r', 'g', 'b', '('];
        let color_prefix = ['c', 'o', 'l', 'o', 'r', '('];
        assert(rgb_prefix@ == seq!['r', 'g', 'b', '(']);
        assert(color_prefix@ == seq!['c', 'o', 'l', 'o', 'r', '(']);
        if s.len() >= 5 && chars_start_with(s.as_slice(), &rgb_prefix) && s[s.len() - 1] == ')' {
            let inner = sub_chars(s.as_slice(), 4, s.len() - 1);
            let parts = crate::strs::split_chars(inner.as_slice(), ',');
            if parts.len() == 3 {
                return match (parse_part_u8(&parts[0]), parse_part_u8(&parts[1]), parse_part_u8(&parts[2])) {
                    (Some(r), Some(g), Some(b)) => Some(SimpleColor::Rgb { r, g, b }),
                    _ => None,
                };
            }
            return None;
        }
        if s.len() >= 7 && chars_start_with(s.as_slice(), &color_prefix) && s[s.len() - 1] == ')' {
            let inner = sub_chars(s.as_slice(), 6, s.len() - 1);
            return match parse_part_u8(&inner) {
                Some(n) => Some(if n < 16 { SimpleColor::Standard(n) } else { SimpleColor::EightBit(n) }),
                None => None,
            };
        }
        match ansi_color_number(lowered.as_str()) {
            Some(n) => {
                return Some(if n < 16 { SimpleColor::Standard(n) } else { SimpleColor::EightBit(n) });
            },
            None => {},
        }
        if str_eq(lowered.as_str(), "default") {
            return Some(SimpleColor::Default);
        }
        None
    }

    /// Convert to the full Color struct.
    pub fn to_color(&self) -> (r: Color)
        ensures
            color_value(r) == simple_to_color_value(*self),
    {
        match self {
            SimpleColor::Default => Color::default_color(),
            SimpleColor::Standard(n) => Color::from_ansi(*n),
            SimpleColor::EightBit(n) => Color::from_ansi(*n),
            SimpleColor::Rgb { r, g, b } => Color::from_rgb(*r, *g, *b),
        }
    }

    /// The simple form of a full color.
    pub fn from_color(color: &Color) -> (r: Self)
        ensures
            r == simple_from_parts(color.color_type, color.number, color.triplet),
    {
        match color.color_type {
            ColorType::Default => SimpleColor::Default,
            ColorType::Standard | ColorType::Windows => SimpleColor::Standard(unwrap_number(color.number)),
            ColorType::EightBit => SimpleColor::EightBit(unwrap_number(color.number)),
            ColorType::TrueColor => {
                let t = match color.triplet {
                    Some(t) => t,
                    None => ColorTriplet { red: 0, green: 0, blue: 0 },
                };
                SimpleColor::Rgb { r: t.red, g: t.green, b: t.blue }
            },
        }
    }

    /// Get ANSI codes for this color.
    pub fn get_ansi_codes(&self, foreground: bool) -> (r: Vec<String>)
        ensures
            views(r@) == ({
                let v = simple_to_color_value(*self);
                ansi_codes_spec(v.1, v.2, v.3, foreground)
            }),
    {
        self.to_color().get_ansi_codes(foreground)
    }

    /// Downgrade this color to a lower color system.
    pub fn downgrade(&self, system: ColorSystem) -> (r: Self)
        ensures
            r == ({
                let v = simple_to_color_value(*self);
                let d = downgrade_spec(v.1, v.2, v.3, system);
                simple_from_parts(d.0, d.1, d.2)
            }),
    {
        let c = self.to_color();
        let d = c.downgrade(system);
        Self::from_color(&d)
    }

    /// Get the hex color string for this color (palette lookups for indexed colors,
    /// white for the default color).
    pub fn get_hex(&self) -> (r: String)
        ensures
            r@ == simple_hex_string(*self),
    {
        match self {
            SimpleColor::Rgb { r, g, b } => ColorTriplet::new(*r, *g, *b).hex(),
            SimpleColor::Default => crate::strs::owned("#ffffff"),
            SimpleColor::Standard(n) => {
                let t = if *n < 16 { standard_color(*n) } else { ColorTriplet { red: 0, green: 0, blue: 0 } };
                t.hex()
            },
            SimpleColor::EightBit(n) => eight_bit_color(*n).hex(),
        }
    }
}


/// A `SimpleColor` turned into a full color and back is the same `SimpleColor`, when
/// its number fits its kind (a standard number below 16, an 8-bit number from 16 on);
/// the full color is the default color exactly for the default.
pub proof fn law_simple_color_round_trip(c: SimpleColor)
    requires
        c matches SimpleColor::Standard(n) ==> n < 16,
        c matches SimpleColor::EightBit(n) ==> n >= 16,
    ensures
        ({
            let v = simple_to_color_value(c);
            simple_from_parts(v.1, v.2, v.3) == c && (v.1 == ColorType::Default <==> c == SimpleColor::Default)
        }),
{
}


/// The cube level of a component value is the nearest of the cube's six values
/// (0, 95, 135, 175, 215, 255), at most 47 away.
proof fn lemma_six_level_near(v: u8)
    ensures
        six_level(v) <= 5,
        cube_level(six_level(v) as int) - 47 <= v <= cube_level(six_level(v) as int) + 47,
{
    if v < 95 {
        assert(six_level(v) == (2 * (v as nat) + 95) / 190);
    } else {
        assert(six_level(v) == 1 + (2 * ((v - 95) as nat) + 40) / 80);
    }
}

/// Downgrading a saturated true color to 256 colors picks the cube entry nearest to it
/// component by component: the red, green and blue of the palette entry at the index
/// chosen are each within 47 of the color's own red, green and blue.
pub proof fn law_eight_bit_cube_near(t: ColorTriplet)
    requires
        !low_saturation(t),
    ensures
        16 <= eight_bit_index(t) <= 231,
        ({
            let c = eight_bit_triplet(eight_bit_index(t) as int);
            &&& t.red - 47 <= c.red <= t.red + 47
            &&& t.green - 47 <= c.green <= t.green + 47
            &&& t.blue - 47 <= c.blue <= t.blue + 47
        }),
{
    lemma_six_level_near(t.red);
    lemma_six_level_near(t.green);
    lemma_six_level_near(t.blue);
    let r = six_level(t.red) as int;
    let g = six_level(t.green) as int;
    let b = six_level(t.blue) as int;
    let k = 36 * r + 6 * g + b;
    assert(0 <= k <= 215);
    assert(eight_bit_index(t) == 16 + k);
    assert(k / 36 == r && (k / 6) % 6 == g && k % 6 == b) by (nonlinear_arith)
        requires
            k == 36 * r + 6 * g + b,
            0 <= r <= 5,
            0 <= g <= 5,
            0 <= b <= 5,
    ;
}

/// Downgrading a gray-ish true color (low saturation) to 256 colors picks a gray: black,
/// white, or one of the 24 grays, whose red, green and blue are equal.
pub proof fn law_eight_bit_gray(t: ColorTriplet)
    requires
        low_saturation(t),
    ensures
        eight_bit_index(t) == 16 || eight_bit_index(t) >= 231,
        ({
            let c = eight_bit_triplet(eight_bit_index(t) as int);
            c.red == c.green && c.green == c.blue
        }),
{
    let g = round_div(5 * (max3(t) + min3(t)), 102);
    let m = max3(t) + min3(t);
    assert(m <= 510);
    assert(g == (2 * (5 * m) + 102) / 204);
    assert((2 * (5 * m) + 102) / 204 <= 25) by (nonlinear_arith)
        requires
            m <= 510,
    ;
    if g == 25 {
        let k: int = 215;
        assert(k / 36 == 5 && (k / 6) % 6 == 5 && k % 6 == 5);
    } else if g == 0 {
        let k: int = 0;
        assert(k / 36 == 0 && (k / 6) % 6 == 0 && k % 6 == 0);
    }
}
} // verus!
