//! Box drawing characters for borders, panels, and tables.
//!
//! Each `Box` defines 32 characters arranged in 8 rows (top, head, head_row, mid,
//! row, foot_row, foot, bottom) that control how borders and dividers are rendered.
use vstd::prelude::*;
use crate::strs::{push_repeat, repeat_spec};

verus! {

/// Level of a row separator in a table.
#[derive(Debug, Clone, Copy, PartialEq, Eq, Structural)]
pub enum RowLevel {
    /// Header row separator (between header and body).
    Head,
    /// Regular row separator.
    Row,
    /// Footer row separator (between body and footer).
    Foot,
    /// Mid-section (vertical lines only, used for content rows).
    Mid,
}

/// A complete set of box-drawing characters for creating borders and tables.
#[derive(Debug, Clone, Copy, PartialEq, Eq, Structural)]
pub struct Box {
    /// Box-drawing character `top_left`.
    pub top_left: char,
    /// Box-drawing character `top`.
    pub top: char,
    /// Box-drawing character `top_divider`.
    pub top_divider: char,
    /// Box-drawing character `top_right`.
    pub top_right: char,
    /// Box-drawing character `head_left`.
    pub head_left: char,
    /// Box-drawing character `head_vertical`.
    pub head_vertical: char,
    /// Box-drawing character `head_right`.
    pub head_right: char,
    /// Box-drawing character `head_row_left`.
    pub head_row_left: char,
    /// Box-drawing character `head_row_horizontal`.
    pub head_row_horizontal: char,
    /// Box-drawing character `head_row_cross`.
    pub head_row_cross: char,
    /// Box-drawing character `head_row_right`.
    pub head_row_right: char,
    /// Box-drawing character `mid_left`.
    pub mid_left: char,
    /// Box-drawing character `mid_vertical`.
    pub mid_vertical: char,
    /// Box-drawing character `mid_right`.
    pub mid_right: char,
    /// Box-drawing character `row_left`.
    pub row_left: char,
    /// Box-drawing character `row_horizontal`.
    pub row_horizontal: char,
    /// Box-drawing character `row_cross`.
    pub row_cross: char,
    /// Box-drawing character `row_right`.
    pub row_right: char,
    /// Box-drawing character `foot_row_left`.
    pub foot_row_left: char,
    /// Box-drawing character `foot_row_horizontal`.
    pub foot_row_horizontal: char,
    /// Box-drawing character `foot_row_cross`.
    pub foot_row_cross: char,
    /// Box-drawing character `foot_row_right`.
    pub foot_row_right: char,
    /// Box-drawing character `foot_left`.
    pub foot_left: char,
    /// Box-drawing character `foot_vertical`.
    pub foot_vertical: char,
    /// Box-drawing character `foot_right`.
    pub foot_right: char,
    /// Box-drawing character `bottom_left`.
    pub bottom_left: char,
    /// Box-drawing character `bottom`.
    pub bottom: char,
    /// Box-drawing character `bottom_divider`.
    pub bottom_divider: char,
    /// Box-drawing character `bottom_right`.
    pub bottom_right: char,
    /// Whether this box uses ASCII characters only.
    pub ascii: bool,
}

/// ASCII box using + - | characters.
pub open spec fn ascii_spec() -> Box {
    Box { top_left: '+', top: '-', top_divider: '-', top_right: '+', head_left: '|', head_vertical: '|', head_right: '|', head_row_left: '|', head_row_horizontal: '-', head_row_cross: '+', head_row_right: '|', mid_left: '|', mid_vertical: '|', mid_right: '|', row_left: '|', row_horizontal: '-', row_cross: '+', row_right: '|', foot_row_left: '|', foot_row_horizontal: '-', foot_row_cross: '+', foot_row_right: '|', foot_left: '|', foot_vertical: '|', foot_right: '|', bottom_left: '+', bottom: '-', bottom_divider: '-', bottom_right: '+', ascii: true }
}

/// ASCII box using + - | characters.
pub fn ascii() -> (r: Box)
    ensures
        r == ascii_spec(),
{
    Box { top_left: '+', top: '-', top_divider: '-', top_right: '+', head_left: '|', head_vertical: '|', head_right: '|', head_row_left: '|', head_row_horizontal: '-', head_row_cross: '+', head_row_right: '|', mid_left: '|', mid_vertical: '|', mid_right: '|', row_left: '|', row_horizontal: '-', row_cross: '+', row_right: '|', foot_row_left: '|', foot_row_horizontal: '-', foot_row_cross: '+', foot_row_right: '|', foot_left: '|', foot_vertical: '|', foot_right: '|', bottom_left: '+', bottom: '-', bottom_divider: '-', bottom_right: '+', ascii: true }
}

/// ASCII box variant 2 with + for all junctions.
pub open spec fn ascii2_spec() -> Box {
    Box { top_left: '+', top: '-', top_divider: '+', top_right: '+', head_left: '|', head_vertical: '|', head_right: '|', head_row_left: '+', head_row_horizontal: '-', head_row_cross: '+', head_row_right: '+', mid_left: '|', mid_vertical: '|', mid_right: '|', row_left: '+', row_horizontal: '-', row_cross: '+', row_right: '+', foot_row_left: '+', foot_row_horizontal: '-', foot_row_cross: '+', foot_row_right: '+', foot_left: '|', foot_vertical: '|', foot_right: '|', bottom_left: '+', bottom: '-', bottom_divider: '+', bottom_right: '+', ascii: true }
}

/// ASCII box variant 2 with + for all junctions.
pub fn ascii2() -> (r: Box)
    ensures
        r == ascii2_spec(),
{
    Box { top_left: '+', top: '-', top_divider: '+', top_right: '+', head_left: '|', head_vertical: '|', head_right: '|', head_row_left: '+', head_row_horizontal: '-', head_row_cross: '+', head_row_right: '+', mid_left: '|', mid_vertical: '|', mid_right: '|', row_left: '+', row_horizontal: '-', row_cross: '+', row_right: '+', foot_row_left: '+', foot_row_horizontal: '-', foot_row_cross: '+', foot_row_right: '+', foot_left: '|', foot_vertical: '|', foot_right: '|', bottom_left: '+', bottom: '-', bottom_divider: '+', bottom_right: '+', ascii: true }
}

/// ASCII box with double-line header separator (= instead of -).
pub open spec fn ascii_double_head_spec() -> Box {
    Box { top_left: '+', top: '-', top_divider: '+', top_right: '+', head_left: '|', head_vertical: '|', head_right: '|', head_row_left: '+', head_row_horizontal: '=', head_row_cross: '+', head_row_right: '+', mid_left: '|', mid_vertical: '|', mid_right: '|', row_left: '+', row_horizontal: '-', row_cross: '+', row_right: '+', foot_row_left: '+', foot_row_horizontal: '-', foot_row_cross: '+', foot_row_right: '+', foot_left: '|', foot_vertical: '|', foot_right: '|', bottom_left: '+', bottom: '-', bottom_divider: '+', bottom_right: '+', ascii: true }
}

/// ASCII box with double-line header separator (= instead of -).
pub fn ascii_double_head() -> (r: Box)
    ensures
        r == ascii_double_head_spec(),
{
    Box { top_left: '+', top: '-', top_divider: '+', top_right: '+', head_left: '|', head_vertical: '|', head_right: '|', head_row_left: '+', head_row_horizontal: '=', head_row_cross: '+', head_row_right: '+', mid_left: '|', mid_vertical: '|', mid_right: '|', row_left: '+', row_horizontal: '-', row_cross: '+', row_right: '+', foot_row_left: '+', foot_row_horizontal: '-', foot_row_cross: '+', foot_row_right: '+', foot_left: '|', foot_vertical: '|', foot_right: '|', bottom_left: '+', bottom: '-', bottom_divider: '+', bottom_right: '+', ascii: true }
}

/// Square box with thin Unicode lines.
pub open spec fn square_spec() -> Box {
    Box { top_left: '┌', top: '─', top_divider: '┬', top_right: '┐', head_left: '│', head_vertical: '│', head_right: '│', head_row_left: '├', head_row_horizontal: '─', head_row_cross: '┼', head_row_right: '┤', mid_left: '│', mid_vertical: '│', mid_right: '│', row_left: '├', row_horizontal: '─', row_cross: '┼', row_right: '┤', foot_row_left: '├', foot_row_horizontal: '─', foot_row_cross: '┼', foot_row_right: '┤', foot_left: '│', foot_vertical: '│', foot_right: '│', bottom_left: '└', bottom: '─', bottom_divider: '┴', bottom_right: '┘', ascii: false }
}

/// Square box with thin Unicode lines.
pub fn square() -> (r: Box)
    ensures
        r == square_spec(),
{
    Box { top_left: '┌', top: '─', top_divider: '┬', top_right: '┐', head_left: '│', head_vertical: '│', head_right: '│', head_row_left: '├', head_row_horizontal: '─', head_row_cross: '┼', head_row_right: '┤', mid_left: '│', mid_vertical: '│', mid_right: '│', row_left: '├', row_horizontal: '─', row_cross: '┼', row_right: '┤', foot_row_left: '├', foot_row_horizontal: '─', foot_row_cross: '┼', foot_row_right: '┤', foot_left: '│', foot_vertical: '│', foot_right: '│', bottom_left: '└', bottom: '─', bottom_divider: '┴', bottom_right: '┘', ascii: false }
}

/// Square box with double-line header separator.
pub open spec fn square_double_head_spec() -> Box {
    Box { top_left: '┌', top: '─', top_divider: '┬', top_right: '┐', head_left: '│', head_vertical: '│', head_right: '│', head_row_left: '╞', head_row_horizontal: '═', head_row_cross: '╪', head_row_right: '╡', mid_left: '│', mid_vertical: '│', mid_right: '│', row_left: '├', row_horizontal: '─', row_cross: '┼', row_right: '┤', foot_row_left: '├', foot_row_horizontal: '─', foot_row_cross: '┼', foot_row_right: '┤', foot_left: '│', foot_vertical: '│', foot_right: '│', bottom_left: '└', bottom: '─', bottom_divider: '┴', bottom_right: '┘', ascii: false }
}

/// Square box with double-line header separator.
pub fn square_double_head() -> (r: Box)
    ensures
        r == square_double_head_spec(),
{
    Box { top_left: '┌', top: '─', top_divider: '┬', top_right: '┐', head_left: '│', head_vertical: '│', head_right: '│', head_row_left: '╞', head_row_horizontal: '═', head_row_cross: '╪', head_row_right: '╡', mid_left: '│', mid_vertical: '│', mid_right: '│', row_left: '├', row_horizontal: '─', row_cross: '┼', row_right: '┤', foot_row_left: '├', foot_row_horizontal: '─', foot_row_cross: '┼', foot_row_right: '┤', foot_left: '│', foot_vertical: '│', foot_right: '│', bottom_left: '└', bottom: '─', bottom_divider: '┴', bottom_right: '┘', ascii: false }
}

/// Minimal box with sparse borders.
pub open spec fn minimal_spec() -> Box {
    Box { top_left: ' ', top: ' ', top_divider: '╷', top_right: ' ', head_left: ' ', head_vertical: '│', head_right: ' ', head_row_left: '╶', head_row_horizontal: '─', head_row_cross: '┼', head_row_right: '╴', mid_left: ' ', mid_vertical: '│', mid_right: ' ', row_left: '╶', row_horizontal: '─', row_cross: '┼', row_right: '╴', foot_row_left: '╶', foot_row_horizontal: '─', foot_row_cross: '┼', foot_row_right: '╴', foot_left: ' ', foot_vertical: '│', foot_right: ' ', bottom_left: ' ', bottom: ' ', bottom_divider: '╵', bottom_right: ' ', ascii: false }
}

/// Minimal box with sparse borders.
pub fn minimal() -> (r: Box)
    ensures
        r == minimal_spec(),
{
    Box { top_left: ' ', top: ' ', top_divider: '╷', top_right: ' ', head_left: ' ', head_vertical: '│', head_right: ' ', head_row_left: '╶', head_row_horizontal: '─', head_row_cross: '┼', head_row_right: '╴', mid_left: ' ', mid_vertical: '│', mid_right: ' ', row_left: '╶', row_horizontal: '─', row_cross: '┼', row_right: '╴', foot_row_left: '╶', foot_row_horizontal: '─', foot_row_cross: '┼', foot_row_right: '╴', foot_left: ' ', foot_vertical: '│', foot_right: ' ', bottom_left: ' ', bottom: ' ', bottom_divider: '╵', bottom_right: ' ', ascii: false }
}

/// Minimal box with heavy header separator.
pub open spec fn minimal_heavy_head_spec() -> Box {
    Box { top_left: ' ', top: ' ', top_divider: '╷', top_right: ' ', head_left: ' ', head_vertical: '│', head_right: ' ', head_row_left: '╺', head_row_horizontal: '━', head_row_cross: '┿', head_row_right: '╸', mid_left: ' ', mid_vertical: '│', mid_right: ' ', row_left: '╶', row_horizontal: '─', row_cross: '┼', row_right: '╴', foot_row_left: '╶', foot_row_horizontal: '─', foot_row_cross: '┼', foot_row_right: '╴', foot_left: ' ', foot_vertical: '│', foot_right: ' ', bottom_left: ' ', bottom: ' ', bottom_divider: '╵', bottom_right: ' ', ascii: false }
}

/// Minimal box with heavy header separator.
pub fn minimal_heavy_head() -> (r: Box)
    ensures
        r == minimal_heavy_head_spec(),
{
    Box { top_left: ' ', top: ' ', top_divider: '╷', top_right: ' ', head_left: ' ', head_vertical: '│', head_right: ' ', head_row_left: '╺', head_row_horizontal: '━', head_row_cross: '┿', head_row_right: '╸', mid_left: ' ', mid_vertical: '│', mid_right: ' ', row_left: '╶', row_horizontal: '─', row_cross: '┼', row_right: '╴', foot_row_left: '╶', foot_row_horizontal: '─', foot_row_cross: '┼', foot_row_right: '╴', foot_left: ' ', foot_vertical: '│', foot_right: ' ', bottom_left: ' ', bottom: ' ', bottom_divider: '╵', bottom_right: ' ', ascii: false }
}

/// Minimal box with double-line header separator.
pub open spec fn minimal_double_head_spec() -> Box {
    Box { top_left: ' ', top: ' ', top_divider: '╷', top_right: ' ', head_left: ' ', head_vertical: '│', head_right: ' ', head_row_left: ' ', head_row_horizontal: '═', head_row_cross: '╪', head_row_right: ' ', mid_left: ' ', mid_vertical: '│', mid_right: ' ', row_left: ' ', row_horizontal: '─', row_cross: '┼', row_right: ' ', foot_row_left: ' ', foot_row_horizontal: '─', foot_row_cross: '┼', foot_row_right: ' ', foot_left: ' ', foot_vertical: '│', foot_right: ' ', bottom_left: ' ', bottom: ' ', bottom_divider: '╵', bottom_right: ' ', ascii: false }
}

/// Minimal box with double-line header separator.
pub fn minimal_double_head() -> (r: Box)
    ensures
        r == minimal_double_head_spec(),
{
    Box { top_left: ' ', top: ' ', top_divider: '╷', top_right: ' ', head_left: ' ', head_vertical: '│', head_right: ' ', head_row_left: ' ', head_row_horizontal: '═', head_row_cross: '╪', head_row_right: ' ', mid_left: ' ', mid_vertical: '│', mid_right: ' ', row_left: ' ', row_horizontal: '─', row_cross: '┼', row_right: ' ', foot_row_left: ' ', foot_row_horizontal: '─', foot_row_cross: '┼', foot_row_right: ' ', foot_left: ' ', foot_vertical: '│', foot_right: ' ', bottom_left: ' ', bottom: ' ', bottom_divider: '╵', bottom_right: ' ', ascii: false }
}

/// Simple box with only header and footer separators.
pub open spec fn simple_spec() -> Box {
    Box { top_left: ' ', top: ' ', top_divider: ' ', top_right: ' ', head_left: ' ', head_vertical: ' ', head_right: ' ', head_row_left: ' ', head_row_horizontal: '─', head_row_cross: '─', head_row_right: ' ', mid_left: ' ', mid_vertical: ' ', mid_right: ' ', row_left: ' ', row_horizontal: ' ', row_cross: ' ', row_right: ' ', foot_row_left: ' ', foot_row_horizontal: '─', foot_row_cross: '─', foot_row_right: ' ', foot_left: ' ', foot_vertical: ' ', foot_right: ' ', bottom_left: ' ', bottom: ' ', bottom_divider: ' ', bottom_right: ' ', ascii: false }
}

/// Simple box with only header and footer separators.
pub fn simple() -> (r: Box)
    ensures
        r == simple_spec(),
{
    Box { top_left: ' ', top: ' ', top_divider: ' ', top_right: ' ', head_left: ' ', head_vertical: ' ', head_right: ' ', head_row_left: ' ', head_row_horizontal: '─', head_row_cross: '─', head_row_right: ' ', mid_left: ' ', mid_vertical: ' ', mid_right: ' ', row_left: ' ', row_horizontal: ' ', row_cross: ' ', row_right: ' ', foot_row_left: ' ', foot_row_horizontal: '─', foot_row_cross: '─', foot_row_right: ' ', foot_left: ' ', foot_vertical: ' ', foot_right: ' ', bottom_left: ' ', bottom: ' ', bottom_divider: ' ', bottom_right: ' ', ascii: false }
}

/// Simple box with only header separator.
pub open spec fn simple_head_spec() -> Box {
    Box { top_left: ' ', top: ' ', top_divider: ' ', top_right: ' ', head_left: ' ', head_vertical: ' ', head_right: ' ', head_row_left: ' ', head_row_horizontal: '─', head_row_cross: '─', head_row_right: ' ', mid_left: ' ', mid_vertical: ' ', mid_right: ' ', row_left: ' ', row_horizontal: ' ', row_cross: ' ', row_right: ' ', foot_row_left: ' ', foot_row_horizontal: ' ', foot_row_cross: ' ', foot_row_right: ' ', foot_left: ' ', foot_vertical: ' ', foot_right: ' ', bottom_left: ' ', bottom: ' ', bottom_divider: ' ', bottom_right: ' ', ascii: false }
}

/// Simple box with only header separator.
pub fn simple_head() -> (r: Box)
    ensures
        r == simple_head_spec(),
{
    Box { top_left: ' ', top: ' ', top_divider: ' ', top_right: ' ', head_left: ' ', head_vertical: ' ', head_right: ' ', head_row_left: ' ', head_row_horizontal: '─', head_row_cross: '─', head_row_right: ' ', mid_left: ' ', mid_vertical: ' ', mid_right: ' ', row_left: ' ', row_horizontal: ' ', row_cross: ' ', row_right: ' ', foot_row_left: ' ', foot_row_horizontal: ' ', foot_row_cross: ' ', foot_row_right: ' ', foot_left: ' ', foot_vertical: ' ', foot_right: ' ', bottom_left: ' ', bottom: ' ', bottom_divider: ' ', bottom_right: ' ', ascii: false }
}

/// Simple box with heavy (thick) separators.
pub open spec fn simple_heavy_spec() -> Box {
    Box { top_left: ' ', top: ' ', top_divider: ' ', top_right: ' ', head_left: ' ', head_vertical: ' ', head_right: ' ', head_row_left: ' ', head_row_horizontal: '━', head_row_cross: '━', head_row_right: ' ', mid_left: ' ', mid_vertical: ' ', mid_right: ' ', row_left: ' ', row_horizontal: ' ', row_cross: ' ', row_right: ' ', foot_row_left: ' ', foot_row_horizontal: '━', foot_row_cross: '━', foot_row_right: ' ', foot_left: ' ', foot_vertical: ' ', foot_right: ' ', bottom_left: ' ', bottom: ' ', bottom_divider: ' ', bottom_right: ' ', ascii: false }
}

/// Simple box with heavy (thick) separators.
pub fn simple_heavy() -> (r: Box)
    ensures
        r == simple_heavy_spec(),
{
    Box { top_left: ' ', top: ' ', top_divider: ' ', top_right: ' ', head_left: ' ', head_vertical: ' ', head_right: ' ', head_row_left: ' ', head_row_horizontal: '━', head_row_cross: '━', head_row_right: ' ', mid_left: ' ', mid_vertical: ' ', mid_right: ' ', row_left: ' ', row_horizontal: ' ', row_cross: ' ', row_right: ' ', foot_row_left: ' ', foot_row_horizontal: '━', foot_row_cross: '━', foot_row_right: ' ', foot_left: ' ', foot_vertical: ' ', foot_right: ' ', bottom_left: ' ', bottom: ' ', bottom_divider: ' ', bottom_right: ' ', ascii: false }
}

/// Horizontals-only box with lines at top, head, row, foot, and bottom.
pub open spec fn horizontals_spec() -> Box {
    Box { top_left: ' ', top: '─', top_divider: '─', top_right: ' ', head_left: ' ', head_vertical: ' ', head_right: ' ', head_row_left: ' ', head_row_horizontal: '─', head_row_cross: '─', head_row_right: ' ', mid_left: ' ', mid_vertical: ' ', mid_right: ' ', row_left: ' ', row_horizontal: '─', row_cross: '─', row_right: ' ', foot_row_left: ' ', foot_row_horizontal: '─', foot_row_cross: '─', foot_row_right: ' ', foot_left: ' ', foot_vertical: ' ', foot_right: ' ', bottom_left: ' ', bottom: '─', bottom_divider: '─', bottom_right: ' ', ascii: false }
}

/// Horizontals-only box with lines at top, head, row, foot, and bottom.
pub fn horizontals() -> (r: Box)
    ensures
        r == horizontals_spec(),
{
    Box { top_left: ' ', top: '─', top_divider: '─', top_right: ' ', head_left: ' ', head_vertical: ' ', head_right: ' ', head_row_left: ' ', head_row_horizontal: '─', head_row_cross: '─', head_row_right: ' ', mid_left: ' ', mid_vertical: ' ', mid_right: ' ', row_left: ' ', row_horizontal: '─', row_cross: '─', row_right: ' ', foot_row_left: ' ', foot_row_horizontal: '─', foot_row_cross: '─', foot_row_right: ' ', foot_left: ' ', foot_vertical: ' ', foot_right: ' ', bottom_left: ' ', bottom: '─', bottom_divider: '─', bottom_right: ' ', ascii: false }
}

/// Rounded box with curved corners.
pub open spec fn rounded_spec() -> Box {
    Box { top_left: '╭', top: '─', top_divider: '┬', top_right: '╮', head_left: '│', head_vertical: '│', head_right: '│', head_row_left: '├', head_row_horizontal: '─', head_row_cross: '┼', head_row_right: '┤', mid_left: '│', mid_vertical: '│', mid_right: '│', row_left: '├', row_horizontal: '─', row_cross: '┼', row_right: '┤', foot_row_left: '├', foot_row_horizontal: '─', foot_row_cross: '┼', foot_row_right: '┤', foot_left: '│', foot_vertical: '│', foot_right: '│', bottom_left: '╰', bottom: '─', bottom_divider: '┴', bottom_right: '╯', ascii: false }
}

/// Rounded box with curved corners.
pub fn rounded() -> (r: Box)
    ensures
        r == rounded_spec(),
{
    Box { top_left: '╭', top: '─', top_divider: '┬', top_right: '╮', head_left: '│', head_vertical: '│', head_right: '│', head_row_left: '├', head_row_horizontal: '─', head_row_cross: '┼', head_row_right: '┤', mid_left: '│', mid_vertical: '│', mid_right: '│', row_left: '├', row_horizontal: '─', row_cross: '┼', row_right: '┤', foot_row_left: '├', foot_row_horizontal: '─', foot_row_cross: '┼', foot_row_right: '┤', foot_left: '│', foot_vertical: '│', foot_right: '│', bottom_left: '╰', bottom: '─', bottom_divider: '┴', bottom_right: '╯', ascii: false }
}

/// Heavy box with thick lines throughout.
pub open spec fn heavy_spec() -> Box {
    Box { top_left: '┏', top: '━', top_divider: '┳', top_right: '┓', head_left: '┃', head_vertical: '┃', head_right: '┃', head_row_left: '┣', head_row_horizontal: '━', head_row_cross: '╋', head_row_right: '┫', mid_left: '┃', mid_vertical: '┃', mid_right: '┃', row_left: '┣', row_horizontal: '━', row_cross: '╋', row_right: '┫', foot_row_left: '┣', foot_row_horizontal: '━', foot_row_cross: '╋', foot_row_right: '┫', foot_left: '┃', foot_vertical: '┃', foot_right: '┃', bottom_left: '┗', bottom: '━', bottom_divider: '┻', bottom_right: '┛', ascii: false }
}

/// Heavy box with thick lines throughout.
pub fn heavy() -> (r: Box)
    ensures
        r == heavy_spec(),
{
    Box { top_left: '┏', top: '━', top_divider: '┳', top_right: '┓', head_left: '┃', head_vertical: '┃', head_right: '┃', head_row_left: '┣', head_row_horizontal: '━', head_row_cross: '╋', head_row_right: '┫', mid_left: '┃', mid_vertical: '┃', mid_right: '┃', row_left: '┣', row_horizontal: '━', row_cross: '╋', row_right: '┫', foot_row_left: '┣', foot_row_horizontal: '━', foot_row_cross: '╋', foot_row_right: '┫', foot_left: '┃', foot_vertical: '┃', foot_right: '┃', bottom_left: '┗', bottom: '━', bottom_divider: '┻', bottom_right: '┛', ascii: false }
}

/// Heavy edge box (thick outer, thin inner lines).
pub open spec fn heavy_edge_spec() -> Box {
    Box { top_left: '┏', top: '━', top_divider: '┯', top_right: '┓', head_left: '┃', head_vertical: '│', head_right: '┃', head_row_left: '┠', head_row_horizontal: '─', head_row_cross: '┼', head_row_right: '┨', mid_left: '┃', mid_vertical: '│', mid_right: '┃', row_left: '┠', row_horizontal: '─', row_cross: '┼', row_right: '┨', foot_row_left: '┠', foot_row_horizontal: '─', foot_row_cross: '┼', foot_row_right: '┨', foot_left: '┃', foot_vertical: '│', foot_right: '┃', bottom_left: '┗', bottom: '━', bottom_divider: '┷', bottom_right: '┛', ascii: false }
}

/// Heavy edge box (thick outer, thin inner lines).
pub fn heavy_edge() -> (r: Box)
    ensures
        r == heavy_edge_spec(),
{
    Box { top_left: '┏', top: '━', top_divider: '┯', top_right: '┓', head_left: '┃', head_vertical: '│', head_right: '┃', head_row_left: '┠', head_row_horizontal: '─', head_row_cross: '┼', head_row_right: '┨', mid_left: '┃', mid_vertical: '│', mid_right: '┃', row_left: '┠', row_horizontal: '─', row_cross: '┼', row_right: '┨', foot_row_left: '┠', foot_row_horizontal: '─', foot_row_cross: '┼', foot_row_right: '┨', foot_left: '┃', foot_vertical: '│', foot_right: '┃', bottom_left: '┗', bottom: '━', bottom_divider: '┷', bottom_right: '┛', ascii: false }
}

/// Heavy head box (thick header, thin body).
pub open spec fn heavy_head_spec() -> Box {
    Box { top_left: '┏', top: '━', top_divider: '┳', top_right: '┓', head_left: '┃', head_vertical: '┃', head_right: '┃', head_row_left: '┡', head_row_horizontal: '━', head_row_cross: '╇', head_row_right: '┩', mid_left: '│', mid_vertical: '│', mid_right: '│', row_left: '├', row_horizontal: '─', row_cross: '┼', row_right: '┤', foot_row_left: '├', foot_row_horizontal: '─', foot_row_cross: '┼', foot_row_right: '┤', foot_left: '│', foot_vertical: '│', foot_right: '│', bottom_left: '└', bottom: '─', bottom_divider: '┴', bottom_right: '┘', ascii: false }
}

/// Heavy head box (thick header, thin body).
pub fn heavy_head() -> (r: Box)
    ensures
        r == heavy_head_spec(),
{
    Box { top_left: '┏', top: '━', top_divider: '┳', top_right: '┓', head_left: '┃', head_vertical: '┃', head_right: '┃', head_row_left: '┡', head_row_horizontal: '━', head_row_cross: '╇', head_row_right: '┩', mid_left: '│', mid_vertical: '│', mid_right: '│', row_left: '├', row_horizontal: '─', row_cross: '┼', row_right: '┤', foot_row_left: '├', foot_row_horizontal: '─', foot_row_cross: '┼', foot_row_right: '┤', foot_left: '│', foot_vertical: '│', foot_right: '│', bottom_left: '└', bottom: '─', bottom_divider: '┴', bottom_right: '┘', ascii: false }
}

/// Double-line box throughout.
pub open spec fn double_spec() -> Box {
    Box { top_left: '╔', top: '═', top_divider: '╦', top_right: '╗', head_left: '║', head_vertical: '║', head_right: '║', head_row_left: '╠', head_row_horizontal: '═', head_row_cross: '╬', head_row_right: '╣', mid_left: '║', mid_vertical: '║', mid_right: '║', row_left: '╠', row_horizontal: '═', row_cross: '╬', row_right: '╣', foot_row_left: '╠', foot_row_horizontal: '═', foot_row_cross: '╬', foot_row_right: '╣', foot_left: '║', foot_vertical: '║', foot_right: '║', bottom_left: '╚', bottom: '═', bottom_divider: '╩', bottom_right: '╝', ascii: false }
}

/// Double-line box throughout.
pub fn double() -> (r: Box)
    ensures
        r == double_spec(),
{
    Box { top_left: '╔', top: '═', top_divider: '╦', top_right: '╗', head_left: '║', head_vertical: '║', head_right: '║', head_row_left: '╠', head_row_horizontal: '═', head_row_cross: '╬', head_row_right: '╣', mid_left: '║', mid_vertical: '║', mid_right: '║', row_left: '╠', row_horizontal: '═', row_cross: '╬', row_right: '╣', foot_row_left: '╠', foot_row_horizontal: '═', foot_row_cross: '╬', foot_row_right: '╣', foot_left: '║', foot_vertical: '║', foot_right: '║', bottom_left: '╚', bottom: '═', bottom_divider: '╩', bottom_right: '╝', ascii: false }
}

/// Double edge box (double outer, single inner lines).
pub open spec fn double_edge_spec() -> Box {
    Box { top_left: '╔', top: '═', top_divider: '╤', top_right: '╗', head_left: '║', head_vertical: '│', head_right: '║', head_row_left: '╟', head_row_horizontal: '─', head_row_cross: '┼', head_row_right: '╢', mid_left: '║', mid_vertical: '│', mid_right: '║', row_left: '╟', row_horizontal: '─', row_cross: '┼', row_right: '╢', foot_row_left: '╟', foot_row_horizontal: '─', foot_row_cross: '┼', foot_row_right: '╢', foot_left: '║', foot_vertical: '│', foot_right: '║', bottom_left: '╚', bottom: '═', bottom_divider: '╧', bottom_right: '╝', ascii: false }
}

/// Double edge box (double outer, single inner lines).
pub fn double_edge() -> (r: Box)
    ensures
        r == double_edge_spec(),
{
    Box { top_left: '╔', top: '═', top_divider: '╤', top_right: '╗', head_left: '║', head_vertical: '│', head_right: '║', head_row_left: '╟', head_row_horizontal: '─', head_row_cross: '┼', head_row_right: '╢', mid_left: '║', mid_vertical: '│', mid_right: '║', row_left: '╟', row_horizontal: '─', row_cross: '┼', row_right: '╢', foot_row_left: '╟', foot_row_horizontal: '─', foot_row_cross: '┼', foot_row_right: '╢', foot_left: '║', foot_vertical: '│', foot_right: '║', bottom_left: '╚', bottom: '═', bottom_divider: '╧', bottom_right: '╝', ascii: false }
}

/// Markdown-compatible table format.
pub open spec fn markdown_spec() -> Box {
    Box { top_left: ' ', top: ' ', top_divider: ' ', top_right: ' ', head_left: '|', head_vertical: '|', head_right: '|', head_row_left: '|', head_row_horizontal: '-', head_row_cross: '|', head_row_right: '|', mid_left: '|', mid_vertical: '|', mid_right: '|', row_left: '|', row_horizontal: '-', row_cross: '|', row_right: '|', foot_row_left: '|', foot_row_horizontal: '-', foot_row_cross: '|', foot_row_right: '|', foot_left: '|', foot_vertical: '|', foot_right: '|', bottom_left: ' ', bottom: ' ', bottom_divider: ' ', bottom_right: ' ', ascii: true }
}

/// Markdown-compatible table format.
pub fn markdown() -> (r: Box)
    ensures
        r == markdown_spec(),
{
    Box { top_left: ' ', top: ' ', top_divider: ' ', top_right: ' ', head_left: '|', head_vertical: '|', head_right: '|', head_row_left: '|', head_row_horizontal: '-', head_row_cross: '|', head_row_right: '|', mid_left: '|', mid_vertical: '|', mid_right: '|', row_left: '|', row_horizontal: '-', row_cross: '|', row_right: '|', foot_row_left: '|', foot_row_horizontal: '-', foot_row_cross: '|', foot_row_right: '|', foot_left: '|', foot_vertical: '|', foot_right: '|', bottom_left: ' ', bottom: ' ', bottom_divider: ' ', bottom_right: ' ', ascii: true }
}

/// The characters between the edges of a line: `widths[i]` copies of `h` for each
/// column, with `cross` between consecutive columns.
pub open spec fn columns_spec(widths: Seq<usize>, h: char, cross: char) -> Seq<char>
    decreases widths.len(),
{
    if widths.len() == 0 {
        Seq::empty()
    } else if widths.len() == 1 {
        repeat_spec(h, widths[0] as nat)
    } else {
        columns_spec(widths.drop_last(), h, cross) + seq![cross] + repeat_spec(h, widths.last() as nat)
    }
}

/// A line of a box: optional edges around the columns.
pub open spec fn line_spec(left: char, h: char, cross: char, right: char, widths: Seq<usize>, edge: bool) -> Seq<char> {
    if edge {
        seq![left] + columns_spec(widths, h, cross) + seq![right]
    } else {
        columns_spec(widths, h, cross)
    }
}

/// The characters (left, horizontal, cross, right) of a separator row.
pub open spec fn row_chars(b: Box, level: RowLevel) -> (char, char, char, char) {
    match level {
        RowLevel::Head => (b.head_row_left, b.head_row_horizontal, b.head_row_cross, b.head_row_right),
        RowLevel::Row => (b.row_left, b.row_horizontal, b.row_cross, b.row_right),
        RowLevel::Foot => (b.foot_row_left, b.foot_row_horizontal, b.foot_row_cross, b.foot_row_right),
        RowLevel::Mid => (b.mid_left, ' ', b.mid_vertical, b.mid_right),
    }
}

fn push_columns(s: &mut String, widths: &[usize], h: char, cross: char)
    ensures
        final(s)@ == old(s)@ + columns_spec(widths@, h, cross),
{
    let ghost start = s@;
    let mut i: usize = 0;
    while i < widths.len()
        invariant
            0 <= i <= widths.len(),
            s@ == start + columns_spec(widths@.take(i as int), h, cross),
        decreases widths.len() - i,
    {
        let ghost before = s@;
        if i > 0 {
            s.push(cross);
        }
        push_repeat(s, h, widths[i]);
        proof {
            let t = widths@.take(i + 1);
            assert(t.drop_last() == widths@.take(i as int));
            if i == 0 {
                assert(columns_spec(widths@.take(0), h, cross) == Seq::<char>::empty());
                assert(s@ =~= start + columns_spec(t, h, cross));
            } else {
                assert(s@ =~= start + columns_spec(t, h, cross));
            }
        }
        i = i + 1;
    }
    assert(widths@.take(widths@.len() as int) == widths@);
}

fn build_line(left: char, h: char, cross: char, right: char, widths: &[usize], edge: bool) -> (r: String)
    ensures
        r@ == line_spec(left, h, cross, right, widths@, edge),
{
    let mut s = String::new();
    if edge {
        s.push(left);
    }
    push_columns(&mut s, widths, h, cross);
    if edge {
        s.push(right);
    }
    proof {
        if edge {
            assert(s@ =~= line_spec(left, h, cross, right, widths@, edge));
        } else {
            assert(s@ =~= line_spec(left, h, cross, right, widths@, edge));
        }
    }
    s
}

impl Box {
    /// Substitute this box for another if it won't render due to platform issues: on
    /// legacy Windows the rounded and heavy boxes become square ones, and when only
    /// ASCII can be shown a non-ASCII box becomes `ascii()`.
    pub fn substitute(&self, legacy_windows: bool, ascii_only: bool) -> (r: Box)
        ensures
            r == substitute_spec(*self, legacy_windows, ascii_only),
    {
        let mut result = *self;
        if legacy_windows {
            if *self == rounded() || *self == heavy() || *self == heavy_edge() || *self == heavy_head() {
                result = square();
            } else if *self == minimal_heavy_head() {
                result = minimal();
            } else if *self == simple_heavy() {
                result = simple();
            }
        }
        if ascii_only && !result.ascii {
            return ascii();
        }
        result
    }

    /// The equivalent box without special header characters, or this box if it has none.
    pub fn get_plain_headed_box(&self) -> (r: Box)
        ensures
            r == plain_headed_spec(*self),
    {
        if *self == heavy_head() || *self == square_double_head() {
            square()
        } else if *self == minimal_double_head() || *self == minimal_heavy_head() {
            minimal()
        } else if *self == ascii_double_head() {
            ascii2()
        } else {
            *self
        }
    }

    /// Generate the top border of a box for columns of the given widths.
    pub fn get_top(&self, widths: &[usize]) -> (r: String)
        ensures
            r@ == line_spec(self.top_left, self.top, self.top_divider, self.top_right, widths@, true),
    {
        build_line(self.top_left, self.top, self.top_divider, self.top_right, widths, true)
    }

    /// Generate a row separator line (or a content row for `RowLevel::Mid`).
    pub fn get_row(&self, widths: &[usize], level: RowLevel, edge: bool) -> (r: String)
        ensures
            ({
                let (left, h, cross, right) = row_chars(*self, level);
                r@ == line_spec(left, h, cross, right, widths@, edge)
            }),
    {
        let (left, h, cross, right) = match level {
            RowLevel::Head => (self.head_row_left, self.head_row_horizontal, self.head_row_cross, self.head_row_right),
            RowLevel::Row => (self.row_left, self.row_horizontal, self.row_cross, self.row_right),
            RowLevel::Foot => (self.foot_row_left, self.foot_row_horizontal, self.foot_row_cross, self.foot_row_right),
            RowLevel::Mid => (self.mid_left, ' ', self.mid_vertical, self.mid_right),
        };
        build_line(left, h, cross, right, widths, edge)
    }

    /// Generate the bottom border of a box for columns of the given widths.
    pub fn get_bottom(&self, widths: &[usize]) -> (r: String)
        ensures
            r@ == line_spec(self.bottom_left, self.bottom, self.bottom_divider, self.bottom_right, widths@, true),
    {
        build_line(self.bottom_left, self.bottom, self.bottom_divider, self.bottom_right, widths, true)
    }

    /// The top edge of a single-column box.
    pub fn top_edge(&self, width: usize) -> (r: String)
        ensures
            r@ == seq![self.top_left] + repeat_spec(self.top, width as nat) + seq![self.top_right],
    {
        let w = [width];
        let r = self.get_top(&w);
        assert(w@ == seq![width]);
        assert(columns_spec(w@, self.top, self.top_divider) == repeat_spec(self.top, width as nat));
        r
    }

    /// The bottom edge of a single-column box.
    pub fn bottom_edge(&self, width: usize) -> (r: String)
        ensures
            r@ == seq![self.bottom_left] + repeat_spec(self.bottom, width as nat) + seq![self.bottom_right],
    {
        let w = [width];
        let r = self.get_bottom(&w);
        assert(w@ == seq![width]);
        assert(columns_spec(w@, self.bottom, self.bottom_divider) == repeat_spec(self.bottom, width as nat));
        r
    }
}

/// The box that `substitute` picks.
pub open spec fn substitute_spec(b: Box, legacy_windows: bool, ascii_only: bool) -> Box {
    let result = if legacy_windows {
        if b == rounded_spec() || b == heavy_spec() || b == heavy_edge_spec() || b == heavy_head_spec() {
            square_spec()
        } else if b == minimal_heavy_head_spec() {
            minimal_spec()
        } else if b == simple_heavy_spec() {
            simple_spec()
        } else {
            b
        }
    } else {
        b
    };
    if ascii_only && !result.ascii { ascii_spec() } else { result }
}

/// The box that `get_plain_headed_box` picks.
pub open spec fn plain_headed_spec(b: Box) -> Box {
    if b == heavy_head_spec() || b == square_double_head_spec() {
        square_spec()
    } else if b == minimal_double_head_spec() || b == minimal_heavy_head_spec() {
        minimal_spec()
    } else if b == ascii_double_head_spec() {
        ascii2_spec()
    } else {
        b
    }
}

} // verus!
