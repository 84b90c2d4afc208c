//! A simpler set of box drawing characters for borders and panels.
use vstd::prelude::*;
use crate::strs::{push_repeat, repeat_spec};

verus! {

/// A set of box drawing characters for creating borders.
#[derive(Debug, Clone, Copy, PartialEq, Eq, Structural)]
pub struct BoxChars {
    /// Box-drawing character `top_left`.
    pub top_left: char,
    /// Box-drawing character `top_right`.
    pub top_right: char,
    /// Box-drawing character `bottom_left`.
    pub bottom_left: char,
    /// Box-drawing character `bottom_right`.
    pub bottom_right: char,
    /// Box-drawing character `horizontal`.
    pub horizontal: char,
    /// Box-drawing character `vertical`.
    pub vertical: char,
    /// Box-drawing character `vertical_right`.
    pub vertical_right: char,
    /// Box-drawing character `vertical_left`.
    pub vertical_left: char,
    /// Box-drawing character `horizontal_down`.
    pub horizontal_down: char,
    /// Box-drawing character `horizontal_up`.
    pub horizontal_up: char,
    /// Box-drawing character `cross`.
    pub cross: char,
}

impl BoxChars {
    /// Get a string for the top edge of a box.
    pub fn top_edge(&self, width: usize) -> (r: String)
        ensures
            r@ == seq![self.top_left] + repeat_spec(self.horizontal, width as nat) + seq![self.top_right],
    {
        let mut s = String::new();
        s.push(self.top_left);
        push_repeat(&mut s, self.horizontal, width);
        s.push(self.top_right);
        assert(s@ =~= seq![self.top_left] + repeat_spec(self.horizontal, width as nat) + seq![self.top_right]);
        s
    }

    /// Get a string for the bottom edge of a box.
    pub fn bottom_edge(&self, width: usize) -> (r: String)
        ensures
            r@ == seq![self.bottom_left] + repeat_spec(self.horizontal, width as nat) + seq![self.bottom_right],
    {
        let mut s = String::new();
        s.push(self.bottom_left);
        push_repeat(&mut s, self.horizontal, width);
        s.push(self.bottom_right);
        assert(s@ =~= seq![self.bottom_left] + repeat_spec(self.horizontal, width as nat) + seq![self.bottom_right]);
        s
    }
}

/// ASCII box characters.
pub open spec fn ascii_spec() -> BoxChars {
    BoxChars { top_left: '+', top_right: '+', bottom_left: '+', bottom_right: '+', horizontal: '-', vertical: '|', vertical_right: '+', vertical_left: '+', horizontal_down: '+', horizontal_up: '+', cross: '+' }
}

/// ASCII box characters.
pub fn ascii() -> (r: BoxChars)
    ensures
        r == ascii_spec(),
{
    BoxChars { top_left: '+', top_right: '+', bottom_left: '+', bottom_right: '+', horizontal: '-', vertical: '|', vertical_right: '+', vertical_left: '+', horizontal_down: '+', horizontal_up: '+', cross: '+' }
}

/// Simple Unicode box (thin lines).
pub open spec fn square_spec() -> BoxChars {
    BoxChars { top_left: '┌', top_right: '┐', bottom_left: '└', bottom_right: '┘', horizontal: '─', vertical: '│', vertical_right: '├', vertical_left: '┤', horizontal_down: '┬', horizontal_up: '┴', cross: '┼' }
}

/// Simple Unicode box (thin lines).
pub fn square() -> (r: BoxChars)
    ensures
        r == square_spec(),
{
    BoxChars { top_left: '┌', top_right: '┐', bottom_left: '└', bottom_right: '┘', horizontal: '─', vertical: '│', vertical_right: '├', vertical_left: '┤', horizontal_down: '┬', horizontal_up: '┴', cross: '┼' }
}

/// Rounded corners box.
pub open spec fn rounded_spec() -> BoxChars {
    BoxChars { top_left: '╭', top_right: '╮', bottom_left: '╰', bottom_right: '╯', horizontal: '─', vertical: '│', vertical_right: '├', vertical_left: '┤', horizontal_down: '┬', horizontal_up: '┴', cross: '┼' }
}

/// Rounded corners box.
pub fn rounded() -> (r: BoxChars)
    ensures
        r == rounded_spec(),
{
    BoxChars { top_left: '╭', top_right: '╮', bottom_left: '╰', bottom_right: '╯', horizontal: '─', vertical: '│', vertical_right: '├', vertical_left: '┤', horizontal_down: '┬', horizontal_up: '┴', cross: '┼' }
}

/// Heavy (thick) box characters.
pub open spec fn heavy_spec() -> BoxChars {
    BoxChars { top_left: '┏', top_right: '┓', bottom_left: '┗', bottom_right: '┛', horizontal: '━', vertical: '┃', vertical_right: '┣', vertical_left: '┫', horizontal_down: '┳', horizontal_up: '┻', cross: '╋' }
}

/// Heavy (thick) box characters.
pub fn heavy() -> (r: BoxChars)
    ensures
        r == heavy_spec(),
{
    BoxChars { top_left: '┏', top_right: '┓', bottom_left: '┗', bottom_right: '┛', horizontal: '━', vertical: '┃', vertical_right: '┣', vertical_left: '┫', horizontal_down: '┳', horizontal_up: '┻', cross: '╋' }
}

/// Double-line box characters.
pub open spec fn double_spec() -> BoxChars {
    BoxChars { top_left: '╔', top_right: '╗', bottom_left: '╚', bottom_right: '╝', horizontal: '═', vertical: '║', vertical_right: '╠', vertical_left: '╣', horizontal_down: '╦', horizontal_up: '╩', cross: '╬' }
}

/// Double-line box characters.
pub fn double() -> (r: BoxChars)
    ensures
        r == double_spec(),
{
    BoxChars { top_left: '╔', top_right: '╗', bottom_left: '╚', bottom_right: '╝', horizontal: '═', vertical: '║', vertical_right: '╠', vertical_left: '╣', horizontal_down: '╦', horizontal_up: '╩', cross: '╬' }
}

} // verus!
